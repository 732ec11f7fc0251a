//! Which files of the walked folder are backed up.
use vstd::prelude::*;
use crate::text::{chars_of, chars_eq, eq_ignore_case, eq_ignore_ascii_case};

verus! {

/// The extension of a file's path, as `Path::extension` reports it.
#[derive(Debug, PartialEq, Eq)]
pub enum FileExtension {
    /// The path has no extension.
    Missing,
    /// The extension, when it is valid UTF-8.
    Text(String),
    /// An extension that is not valid UTF-8; it equals no text.
    Unreadable,
}

/// The marker that stands for "files without an extension" in the list of
/// extensions.
pub open spec fn no_extension_marker() -> Seq<char> {
    "-no-extension"@
}

/// The file's age `(secs, nanos)` is at most `limit` seconds.
pub open spec fn age_within(secs: u64, nanos: u32, limit: u64) -> bool {
    secs < limit || (secs == limit && nanos == 0)
}

/// The file's age `(secs, nanos)` is below `limit` seconds.
pub open spec fn age_below(secs: u64, limit: u64) -> bool {
    secs < limit
}

/// One entry of the extension list accepts the file: with `negated` off, the
/// file's extension is that entry; with it on, the file's extension differs
/// from it.  A file without extension is accepted by the marker entry in both
/// modes.
pub open spec fn entry_accepts(entry: Seq<char>, negated: bool, ext: FileExtension) -> bool {
    match ext {
        FileExtension::Text(e) => if negated {
            e@ != entry
        } else {
            e@ == entry
        },
        FileExtension::Unreadable => negated,
        FileExtension::Missing => eq_ignore_ascii_case(entry, no_extension_marker()),
    }
}

/// Whether a file is backed up.  With no extensions given, every file whose
/// age is at most the limit; otherwise a file that some entry accepts and whose
/// age is below the limit.
pub open spec fn selected(
    extensions: Seq<String>,
    negated: bool,
    ext: FileExtension,
    secs: u64,
    nanos: u32,
    limit: u64,
) -> bool {
    if extensions.len() == 0 {
        age_within(secs, nanos, limit)
    } else {
        age_below(secs, limit) && exists|i: int|
            0 <= i < extensions.len() && entry_accepts(#[trigger] extensions[i]@, negated, ext)
    }
}

fn accepts(entry: &String, negated: bool, ext: &FileExtension) -> (r: bool)
    ensures
        r == entry_accepts(entry@, negated, *ext),
{
    match ext {
        FileExtension::Text(e) => {
            let same = chars_eq(&chars_of(e.as_str()), &chars_of(entry.as_str()));
            if negated {
                !same
            } else {
                same
            }
        },
        FileExtension::Unreadable => negated,
        FileExtension::Missing => eq_ignore_case(&chars_of(entry.as_str()), &chars_of("-no-extension")),
    }
}

/// Whether the file with extension `file_ext` and age `(elapsed_secs,
/// elapsed_nanos)` is backed up, given the extension list `extension`, whether
/// it is negated (`ext_neg`) and the age limit `time_to_check` in seconds.
pub fn should_back_up(
    extension: &Vec<String>,
    ext_neg: bool,
    file_ext: &FileExtension,
    elapsed_secs: u64,
    elapsed_nanos: u32,
    time_to_check: u64,
) -> (r: bool)
    ensures
        r == selected(extension@, ext_neg, *file_ext, elapsed_secs, elapsed_nanos, time_to_check),
{
    if extension.len() == 0 {
        return !(elapsed_secs > time_to_check || (elapsed_secs == time_to_check && elapsed_nanos
            > 0));
    }
    let mut i: usize = 0;
    while i < extension.len()
        invariant
            i <= extension.len(),
            forall|j: int| 0 <= j < i ==> !entry_accepts(#[trigger] extension@[j]@, ext_neg, *file_ext),
        decreases extension.len() - i,
    {
        if accepts(&extension[i], ext_neg, file_ext) {
            return elapsed_secs < time_to_check;
        }
        i = i + 1;
    }
    false
}

/// With no extensions given, a file is backed up exactly when its age is at
/// most the limit.
pub proof fn law_no_list_age_only(ext: FileExtension, secs: u64, nanos: u32, limit: u64)
    ensures
        selected(Seq::empty(), false, ext, secs, nanos, limit) == age_within(secs, nanos, limit),
        selected(Seq::empty(), true, ext, secs, nanos, limit) == age_within(secs, nanos, limit),
{
}

/// `-ext` backs up only the listed extensions: a backed-up file with an
/// extension has one of them.
pub proof fn law_only_listed_extensions(
    extensions: Seq<String>,
    e: String,
    secs: u64,
    nanos: u32,
    limit: u64,
)
    requires
        extensions.len() > 0,
        selected(extensions, false, FileExtension::Text(e), secs, nanos, limit),
    ensures
        exists|i: int| 0 <= i < extensions.len() && #[trigger] extensions[i]@ == e@,
{
}

/// `-ext-neg` leaves out the extension it names: when every listed entry is
/// the file's extension, the file is not backed up.
pub proof fn law_negated_extension_left_out(
    extensions: Seq<String>,
    e: String,
    secs: u64,
    nanos: u32,
    limit: u64,
)
    requires
        extensions.len() > 0,
        forall|i: int| 0 <= i < extensions.len() ==> #[trigger] extensions[i]@ == e@,
    ensures
        !selected(extensions, true, FileExtension::Text(e), secs, nanos, limit),
{
}

/// A file without an extension is backed up, when extensions are listed,
/// exactly when `-no-extension` (in any ASCII case) is among them and the file
/// is younger than the limit.
pub proof fn law_files_without_extension(
    extensions: Seq<String>,
    negated: bool,
    secs: u64,
    nanos: u32,
    limit: u64,
)
    requires
        extensions.len() > 0,
    ensures
        selected(extensions, negated, FileExtension::Missing, secs, nanos, limit) == (secs < limit
            && exists|i: int|
            0 <= i < extensions.len() && eq_ignore_ascii_case(
                #[trigger] extensions[i]@,
                no_extension_marker(),
            )),
{
}

/// The age limit holds in every mode: a file that is backed up is no older
/// than the limit, and younger than it whenever extensions are listed
/// (negated or not).
pub proof fn law_backed_up_files_are_young(
    extensions: Seq<String>,
    negated: bool,
    ext: FileExtension,
    secs: u64,
    nanos: u32,
    limit: u64,
)
    requires
        selected(extensions, negated, ext, secs, nanos, limit),
    ensures
        secs <= limit,
        extensions.len() > 0 ==> secs < limit,
{
}

} // verus!
