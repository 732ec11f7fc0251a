//! Paths of the backup: where the backup directory lies by default, where a
//! file is copied to, and which directory must exist for it.  Paths are cut
//! at byte offsets of their UTF-8 encoding; a cut that falls inside a
//! character, or past the end, gives `None`.
use vstd::prelude::*;
use crate::text::{chars_of, push_all, string_of};

verus! {

/// Number of bytes of the UTF-8 encoding of `c`.
pub open spec fn utf8_width(c: char) -> nat {
    if (c as u32) < 0x80 {
        1
    } else if (c as u32) < 0x800 {
        2
    } else if (c as u32) < 0x10000 {
        3
    } else {
        4
    }
}

/// Number of bytes of the UTF-8 encoding of `s` (what `str::len` gives).
pub open spec fn byte_len(s: Seq<char>) -> nat
    decreases s.len(),
{
    if s.len() == 0 {
        0
    } else {
        byte_len(s.drop_last()) + utf8_width(s.last())
    }
}

/// Byte offset `b` falls between characters `k - 1` and `k` of `s`.
pub open spec fn is_boundary_at(s: Seq<char>, b: int, k: int) -> bool {
    0 <= k <= s.len() && byte_len(s.take(k)) == b
}

/// The character position at byte offset `b` of `s`, or `None` when `b` lies
/// inside a character or past the end (where `str` slicing panics).
pub open spec fn char_index_at(s: Seq<char>, b: int) -> Option<int> {
    if exists|k: int| is_boundary_at(s, b, k) {
        Some(choose|k: int| is_boundary_at(s, b, k))
    } else {
        None
    }
}

/// Position of the last occurrence of `c` in `s`.
pub open spec fn last_index_of(s: Seq<char>, c: char) -> Option<int> {
    if exists|k: int| 0 <= k < s.len() && s[k] == c {
        Some(choose|k: int| 0 <= k < s.len() && s[k] == c && forall|j: int| k < j < s.len() ==> s[j] != c)
    } else {
        None
    }
}

/// Where backups go when `-p` is not given: the home
/// directory's `backups` folder, followed by the tail of the working directory
/// from its last separator (`\` on Windows, `/` elsewhere).
pub open spec fn default_backup_spec(home: Seq<char>, cwd: Seq<char>, windows: bool) -> Option<Seq<char>> {
    let sep = if windows { '\\' } else { '/' };
    match last_index_of(cwd, sep) {
        None => None,
        Some(i) => Some(
            home + (if windows { "\\backups"@ } else { "/backups/"@ }) + cwd.skip(i),
        ),
    }
}

/// Where a file is copied: the backup directory, a `/`, then the file's path
/// after the first `byte_len(folder)` bytes, so that the copy lies inside the
/// backup directory.
pub open spec fn backup_target_spec(backup: Seq<char>, folder: Seq<char>, file: Seq<char>) -> Option<Seq<char>> {
    match char_index_at(file, byte_len(folder) as int) {
        None => None,
        Some(k) => Some(backup + seq!['/'] + file.skip(k)),
    }
}

/// The directory to create when the copy fails: the backup directory, a `/`,
/// then the file's path between the end of the source folder and the start of
/// the file name (byte offsets).
pub open spec fn backup_parent_spec(
    backup: Seq<char>,
    folder: Seq<char>,
    file: Seq<char>,
    name: Seq<char>,
) -> Option<Seq<char>> {
    let start = byte_len(folder) as int;
    let end = byte_len(file) - byte_len(name);
    if end < 0 {
        None
    } else {
        match (char_index_at(file, start), char_index_at(file, end)) {
            (Some(a), Some(b)) => if a <= b {
                Some(backup + seq!['/'] + file.subrange(a, b))
            } else {
                None
            },
            _ => None,
        }
    }
}

/// Byte counts grow with every character.
pub proof fn lemma_byte_len_strict(s: Seq<char>, j: int, k: int)
    requires
        0 <= j < k <= s.len(),
    ensures
        byte_len(s.take(j)) < byte_len(s.take(k)),
    decreases k - j,
{
    let t = s.take(k);
    assert(t.drop_last() == s.take(k - 1));
    if j < k - 1 {
        lemma_byte_len_strict(s, j, k - 1);
    }
}

/// A byte offset falls at one character position at most.
pub proof fn lemma_boundary_unique(s: Seq<char>, b: int, k1: int, k2: int)
    requires
        is_boundary_at(s, b, k1),
        is_boundary_at(s, b, k2),
    ensures
        k1 == k2,
{
    if k1 < k2 {
        lemma_byte_len_strict(s, k1, k2);
    } else if k2 < k1 {
        lemma_byte_len_strict(s, k2, k1);
    }
}

/// Byte length of a concatenation.
pub proof fn lemma_byte_len_concat(a: Seq<char>, b: Seq<char>)
    ensures
        byte_len(a + b) == byte_len(a) + byte_len(b),
    decreases b.len(),
{
    if b.len() == 0 {
        assert(a + b == a);
    } else {
        assert((a + b).drop_last() == a + b.drop_last());
        lemma_byte_len_concat(a, b.drop_last());
    }
}

/// The byte length of the prefix of `s` before character `k` equals the
/// character position's byte offset.
pub proof fn lemma_char_index_of_prefix(p: Seq<char>, rest: Seq<char>)
    ensures
        char_index_at(p + rest, byte_len(p) as int) == Some(p.len() as int),
{
    let s = p + rest;
    assert(s.take(p.len() as int) == p);
    assert(is_boundary_at(s, byte_len(p) as int, p.len() as int));
    let k = choose|k: int| is_boundary_at(s, byte_len(p) as int, k);
    lemma_boundary_unique(s, byte_len(p) as int, k, p.len() as int);
}

/// `byte_len` is the length of vstd's UTF-8 encoding of the text, which is
/// what `str::len` returns.
pub proof fn lemma_byte_len_is_encoding_len(s: Seq<char>)
    ensures
        byte_len(s) == vstd::utf8::encode_utf8(s).len(),
    decreases s.len(),
{
    if s.len() > 0 {
        let first = seq![s[0]];
        lemma_byte_len_is_encoding_len(s.drop_first());
        lemma_byte_len_concat(first, s.drop_first());
        assert(first + s.drop_first() =~= s);
        assert(first.drop_last() =~= Seq::<char>::empty());
        assert(byte_len(Seq::<char>::empty()) == 0);
        assert(byte_len(first) == utf8_width(s[0]));
        assert(byte_len(s) == utf8_width(s[0]) + byte_len(s.drop_first()));
        vstd::utf8::char_is_scalar(s[0]);
        assert(vstd::utf8::encode_scalar(s[0] as u32).len() == utf8_width(s[0]));
        assert(vstd::utf8::encode_utf8(s) == vstd::utf8::encode_scalar(s[0] as u32)
            + vstd::utf8::encode_utf8(s.drop_first()));
    }
}

/// Number of bytes of the UTF-8 encoding of `c`.
pub fn char_width(c: char) -> (r: usize)
    ensures
        r == utf8_width(c),
{
    let u = c as u32;
    if u < 0x80 {
        1
    } else if u < 0x800 {
        2
    } else if u < 0x10000 {
        3
    } else {
        4
    }
}

/// The UTF-8 encoding takes at most four bytes per character.
pub proof fn lemma_byte_len_bound(s: Seq<char>)
    ensures
        byte_len(s) <= 4 * s.len(),
    decreases s.len(),
{
    if s.len() > 0 {
        lemma_byte_len_bound(s.drop_last());
    }
}

/// The byte length of the UTF-8 encoding of `s` (`str::len`).
pub fn byte_length(s: &Vec<char>) -> (r: u128)
    ensures
        r == byte_len(s@),
{
    let mut acc: u128 = 0;
    let mut k: usize = 0;
    while k < s.len()
        invariant
            k <= s.len(),
            acc == byte_len(s@.take(k as int)),
        decreases s.len() - k,
    {
        assert(s@.take(k + 1).drop_last() == s@.take(k as int));
        proof {
            lemma_byte_len_bound(s@.take(k as int));
        }
        let w = char_width(s[k]);
        acc = acc + w as u128;
        k = k + 1;
    }
    assert(s@.take(s.len() as int) == s@);
    acc
}

/// The character position at byte offset `b` of `s`, or `None` when `b` is
/// not a character boundary of `s`.
pub fn char_index_of_byte(s: &Vec<char>, b: u128) -> (r: Option<usize>)
    ensures
        r matches Some(k) ==> char_index_at(s@, b as int) == Some(k as int),
        r is None ==> char_index_at(s@, b as int) is None,
{
    let mut acc: u128 = 0;
    let mut k: usize = 0;
    while k < s.len() && acc < b
        invariant
            k <= s.len(),
            acc == byte_len(s@.take(k as int)),
            acc <= b,
        decreases s.len() - k,
    {
        assert(s@.take(k + 1).drop_last() == s@.take(k as int));
        let w = char_width(s[k]) as u128;
        if w > b - acc {
            proof {
                assert forall|j: int| !is_boundary_at(s@, b as int, j) by {
                    if 0 <= j <= s.len() {
                        if j <= k {
                            if j < k {
                                lemma_byte_len_strict(s@, j, k as int);
                            }
                        } else {
                            if j > k + 1 {
                                lemma_byte_len_strict(s@, k + 1, j);
                            }
                        }
                    }
                }
            }
            return None;
        }
        acc = acc + w;
        k = k + 1;
    }
    if acc == b {
        proof {
            assert(is_boundary_at(s@, b as int, k as int));
            let w = choose|j: int| is_boundary_at(s@, b as int, j);
            lemma_boundary_unique(s@, b as int, w, k as int);
        }
        Some(k)
    } else {
        proof {
            assert(k == s.len());
            assert forall|j: int| !is_boundary_at(s@, b as int, j) by {
                if 0 <= j < k {
                    lemma_byte_len_strict(s@, j, k as int);
                }
                if j == k {
                }
            }
        }
        None
    }
}

/// Position of the last occurrence of `c` in `s` (`str::rfind`, counted in
/// characters).
pub fn last_index(s: &Vec<char>, c: char) -> (r: Option<usize>)
    ensures
        r matches Some(k) ==> k < s.len() && last_index_of(s@, c) == Some(k as int),
        r is None ==> last_index_of(s@, c) is None,
{
    let mut k: usize = s.len();
    while k > 0
        invariant
            k <= s.len(),
            forall|j: int| k <= j < s.len() ==> s@[j] != c,
        decreases k,
    {
        if s[k - 1] == c {
            proof {
                let w = choose|w: int|
                    0 <= w < s.len() && s@[w] == c && forall|j: int| w < j < s.len() ==> s@[j] != c;
                assert(0 <= w < s.len() && s@[w] == c);
                if w < k - 1 {
                    assert(s@[k - 1] != c);
                }
            }
            return Some(k - 1);
        }
        k = k - 1;
    }
    None
}

/// The characters of `s` from position `from` on.
fn tail_from(s: &Vec<char>, from: usize) -> (r: Vec<char>)
    requires
        from <= s.len(),
    ensures
        r@ == s@.skip(from as int),
{
    slice_chars(s, from, s.len())
}

/// The characters of `s` from position `from` up to `to`.
fn slice_chars(s: &Vec<char>, from: usize, to: usize) -> (r: Vec<char>)
    requires
        from <= to <= s.len(),
    ensures
        r@ == s@.subrange(from as int, to as int),
{
    let mut r: Vec<char> = Vec::new();
    let mut i: usize = from;
    while i < to
        invariant
            from <= i <= to <= s.len(),
            r@ == s@.subrange(from as int, i as int),
        decreases to - i,
    {
        r.push(s[i]);
        i = i + 1;
        assert(s@.subrange(from as int, i as int) == s@.subrange(from as int, i - 1) + seq![
            s@[i - 1],
        ]);
    }
    r
}

/// The default backup directory for the home directory `home` and the working
/// directory `cwd`: `None` when `cwd` holds no separator.
pub fn default_backup_directory(home: &String, cwd: &String, windows: bool) -> (r: Option<String>)
    ensures
        r matches Some(p) ==> default_backup_spec(home@, cwd@, windows) == Some(p@),
        r is None ==> default_backup_spec(home@, cwd@, windows) is None,
{
    let cwd_chars = chars_of(cwd.as_str());
    let sep = if windows { '\\' } else { '/' };
    match last_index(&cwd_chars, sep) {
        None => None,
        Some(i) => {
            let mut out = chars_of(home.as_str());
            let middle = if windows { chars_of("\\backups") } else { chars_of("/backups/") };
            push_all(&mut out, &middle);
            let tail = tail_from(&cwd_chars, i);
            push_all(&mut out, &tail);
            Some(string_of(&out))
        },
    }
}

/// Where the file at `file_path`, found below `folder_path`, is copied inside
/// `backup_directory`; `None` when the folder's byte length is not a character
/// boundary of the file's path.
pub fn backup_target(backup_directory: &String, folder_path: &String, file_path: &String) -> (r:
    Option<String>)
    ensures
        r matches Some(p) ==> backup_target_spec(backup_directory@, folder_path@, file_path@)
            == Some(p@),
        r is None ==> backup_target_spec(backup_directory@, folder_path@, file_path@) is None,
{
    let folder = chars_of(folder_path.as_str());
    let file = chars_of(file_path.as_str());
    let start = byte_length(&folder);
    match char_index_of_byte(&file, start) {
        None => None,
        Some(k) => {
            let mut out = chars_of(backup_directory.as_str());
            out.push('/');
            let tail = tail_from(&file, k);
            push_all(&mut out, &tail);
            Some(string_of(&out))
        },
    }
}

/// The directory to create for the file at `file_path` (named `file_name`),
/// found below `folder_path`, when copying it into `backup_directory` failed;
/// `None` when the name is longer than the path, or a cut falls inside a
/// character, or the cuts are out of order.
pub fn backup_parent(
    backup_directory: &String,
    folder_path: &String,
    file_path: &String,
    file_name: &String,
) -> (r: Option<String>)
    ensures
        r matches Some(p) ==> backup_parent_spec(
            backup_directory@,
            folder_path@,
            file_path@,
            file_name@,
        ) == Some(p@),
        r is None ==> backup_parent_spec(
            backup_directory@,
            folder_path@,
            file_path@,
            file_name@,
        ) is None,
{
    let folder = chars_of(folder_path.as_str());
    let file = chars_of(file_path.as_str());
    let name = chars_of(file_name.as_str());
    let start = byte_length(&folder);
    let path_len = byte_length(&file);
    let name_len = byte_length(&name);
    if name_len > path_len {
        return None;
    }
    let end = path_len - name_len;
    match (char_index_of_byte(&file, start), char_index_of_byte(&file, end)) {
        (Some(a), Some(b)) => {
            if a <= b {
                let mut out = chars_of(backup_directory.as_str());
                out.push('/');
                let mid = slice_chars(&file, a, b);
                push_all(&mut out, &mid);
                Some(string_of(&out))
            } else {
                None
            }
        },
        _ => None,
    }
}

/// A file found below the folder is copied into the backup directory: the
/// backup directory, a `/`, and the file's path relative to the folder.
pub proof fn law_target_of_nested_file(backup: Seq<char>, folder: Seq<char>, rest: Seq<char>)
    ensures
        backup_target_spec(backup, folder, folder + rest) == Some(backup + seq!['/'] + rest),
{
    lemma_char_index_of_prefix(folder, rest);
    assert((folder + rest).skip(folder.len() as int) =~= rest);
}

/// For a file `folder + mid + name` named `name`, the directory made when the
/// copy fails is the backup directory, a `/`, and `mid`: the file's folder
/// relative to the backed-up folder.
pub proof fn law_parent_of_nested_file(
    backup: Seq<char>,
    folder: Seq<char>,
    mid: Seq<char>,
    name: Seq<char>,
)
    ensures
        backup_parent_spec(backup, folder, folder + mid + name, name) == Some(
            backup + seq!['/'] + mid,
        ),
{
    let file = folder + mid + name;
    lemma_char_index_of_prefix(folder, mid + name);
    assert(folder + (mid + name) =~= file);
    lemma_char_index_of_prefix(folder + mid, name);
    lemma_byte_len_concat(folder + mid, name);
    lemma_byte_len_concat(folder, mid);
    assert(file.subrange(folder.len() as int, (folder + mid).len() as int) =~= mid);
}

/// For a working directory `parent + sep + name` whose last component `name`
/// holds no separator, the default backup directory is the home directory's
/// `backups` folder followed by that separator and `name`.
pub proof fn law_default_backup_directory(
    home: Seq<char>,
    parent: Seq<char>,
    name: Seq<char>,
    windows: bool,
)
    requires
        !name.contains(if windows { '\\' } else { '/' }),
    ensures
        default_backup_spec(home, parent + seq![if windows { '\\' } else { '/' }] + name, windows)
            == Some(
            home + (if windows { "\\backups"@ } else { "/backups/"@ }) + seq![
                if windows { '\\' } else { '/' },
            ] + name,
        ),
{
    let sep = if windows { '\\' } else { '/' };
    let cwd = parent + seq![sep] + name;
    let k = parent.len() as int;
    assert(cwd[k] == sep);
    assert forall|j: int| k < j < cwd.len() implies cwd[j] != sep by {
        assert(cwd[j] == name[j - k - 1]);
    }
    let w = choose|w: int|
        0 <= w < cwd.len() && cwd[w] == sep && forall|j: int| w < j < cwd.len() ==> cwd[j] != sep;
    assert(0 <= w < cwd.len() && cwd[w] == sep);
    if w < k {
        assert(cwd[k] != sep);
    } else if w > k {
        assert(cwd[w] == name[w - k - 1]);
    }
    assert(cwd.skip(k) =~= seq![sep] + name);
}

} // verus!
