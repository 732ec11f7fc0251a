//! Command-line parsing: the decisions the tool takes for each argument, as a
//! step from one parsing state to the next.
use vstd::prelude::*;
use crate::clock::{
    DateTime, iso_date_text, offset_text_spec, month_name_spec, weekday_name_spec,
};
use crate::clock::{date_text, offset_text, month_name, weekday_name, month_to_number, now_utc, now_local};
use crate::number::{decimal, signed_decimal, padded, parse_i64_spec, fmt_u64, fmt_i64, fmt_padded, parse_i64};
use crate::text::{
    trim, replace_char, eq_ignore_ascii_case, first_occurrence, chars_of, chars_eq, eq_ignore_case,
    push_all, replace_chars, string_of, trim_chars, contains_char, find_chars,
};

verus! {

/// A flag that takes the argument after it as its value.
#[derive(Clone, Copy, Debug, PartialEq, Eq, Structural)]
pub enum Flag {
    /// `-p`: the backup directory.
    Path,
    /// `-bp`: the folder to back up.
    BackupPath,
    /// `-arg-seperator`: the text between time tokens.
    ArgSeparator,
    /// `-seperator`: the text inside a time token.
    Separator,
    /// `-t`: the age limit of backed-up files.
    Time,
    /// `-ext`: an extension to back up.
    Extension,
    /// `-ext-neg`: an extension to leave out.
    NegatedExtension,
}

/// Why an age limit could not be read.
#[derive(Clone, Copy, Debug, PartialEq, Eq, Structural)]
pub enum TimeParseError {
    /// The unit does not occur in the text.
    UnitMissing,
    /// The text before the unit is not an `i64`.
    NotANumber,
    /// The number times the unit's seconds does not fit in an `i64`.
    Overflow,
}

/// Why the command line was refused; the program stops on each of these with
/// a message that names it.
#[derive(Clone, Copy, Debug, PartialEq, Eq, Structural)]
pub enum ArgError {
    /// The flag is the last argument, so its value is missing.
    MissingValue(Flag),
    /// The text of `-t` before its unit is not a number.
    TimeNumber,
    /// The age limit of `-t` does not fit in an `i64`.
    TimeOverflow,
    /// The age limit of `-t` is negative.
    NegativeTime,
    /// `-zoneLocal` was given and the local offset cannot be determined.
    LocalTimeUnavailable,
}

/// What the first arguments ask for before any of them is processed.
#[derive(Clone, Copy, Debug, PartialEq, Eq, Structural)]
pub enum StartupMode {
    /// Only the program name was given: defaults are used.
    NoArguments,
    /// The argument after the program name asks for the help text.
    Help,
    /// Arguments are processed.
    Normal,
}

/// The meaning of one (trimmed) argument.
#[derive(Clone, Copy, Debug, PartialEq, Eq, Structural)]
pub enum ArgKind {
    Path,
    BackupPath,
    Date,
    DateUs,
    DateEu,
    DayName,
    Day,
    Month,
    MonthName,
    Year,
    Time,
    TimeMs,
    TimeNs,
    Zone,
    ArgSeparator,
    Separator,
    ZoneUtc,
    ZoneLocal,
    Duration,
    Extension,
    NegatedExtension,
    Other,
}

/// The state of parsing: the tool's settings and the time tokens' context.
#[derive(Debug)]
pub struct ArgState {
    /// Where backups go; time tokens are appended to it.
    pub backup_directory: String,
    /// The folder that is backed up.
    pub folder_path: String,
    /// The age limit, in seconds, of the files that are backed up.
    pub time_to_check: u64,
    /// Extensions given by `-ext` and `-ext-neg`, without dots.
    pub extension: Vec<String>,
    /// Whether the extensions are ones to leave out.
    pub ext_neg: bool,
    /// The moment that time tokens show.
    pub current_time: DateTime,
    /// Whether a time token was appended already.
    pub time_added: bool,
    /// Text between two time tokens.
    pub arg_separator: String,
    /// Text inside a time token.
    pub separator: String,
}

/// The mathematical content of an [`ArgState`].
pub struct ArgView {
    pub backup_directory: Seq<char>,
    pub folder_path: Seq<char>,
    pub time_to_check: u64,
    pub extension: Seq<Seq<char>>,
    pub ext_neg: bool,
    pub current_time: DateTime,
    pub time_added: bool,
    pub arg_separator: Seq<char>,
    pub separator: Seq<char>,
}

/// The views of a list of strings.
pub open spec fn views(v: Seq<String>) -> Seq<Seq<char>> {
    v.map_values(|s: String| s@)
}

impl View for ArgState {
    type V = ArgView;

    open spec fn view(&self) -> ArgView {
        ArgView {
            backup_directory: self.backup_directory@,
            folder_path: self.folder_path@,
            time_to_check: self.time_to_check,
            extension: views(self.extension@),
            ext_neg: self.ext_neg,
            current_time: self.current_time,
            time_added: self.time_added,
            arg_separator: self.arg_separator@,
            separator: self.separator@,
        }
    }
}

/// What an argument means, by its trimmed text.  Flags match exactly, except
/// the zone names, which ignore ASCII case.
pub open spec fn classify(t: Seq<char>) -> ArgKind {
    if t == "-p"@ {
        ArgKind::Path
    } else if t == "-bp"@ {
        ArgKind::BackupPath
    } else if t == "-date"@ {
        ArgKind::Date
    } else if t == "-dateUS"@ {
        ArgKind::DateUs
    } else if t == "-dateEU"@ {
        ArgKind::DateEu
    } else if t == "-day-name"@ {
        ArgKind::DayName
    } else if t == "-day"@ {
        ArgKind::Day
    } else if t == "-month"@ {
        ArgKind::Month
    } else if t == "-month-name"@ {
        ArgKind::MonthName
    } else if t == "-year"@ {
        ArgKind::Year
    } else if t == "-time"@ {
        ArgKind::Time
    } else if t == "-time-ms"@ {
        ArgKind::TimeMs
    } else if t == "-time-ns"@ {
        ArgKind::TimeNs
    } else if t == "-zone"@ {
        ArgKind::Zone
    } else if t == "-arg-seperator"@ {
        ArgKind::ArgSeparator
    } else if t == "-seperator"@ {
        ArgKind::Separator
    } else if eq_ignore_ascii_case(t, "-zoneUTC"@) {
        ArgKind::ZoneUtc
    } else if eq_ignore_ascii_case(t, "-zoneLocal"@) {
        ArgKind::ZoneLocal
    } else if t == "-t"@ {
        ArgKind::Duration
    } else if t == "-ext"@ {
        ArgKind::Extension
    } else if t == "-ext-neg"@ {
        ArgKind::NegatedExtension
    } else {
        ArgKind::Other
    }
}

/// The argument kinds that append a time token to the backup directory.
pub open spec fn is_time_token(k: ArgKind) -> bool {
    match k {
        ArgKind::Date | ArgKind::DateUs | ArgKind::DateEu | ArgKind::DayName | ArgKind::Day
        | ArgKind::Month | ArgKind::MonthName | ArgKind::Year | ArgKind::Time | ArgKind::TimeMs
        | ArgKind::TimeNs | ArgKind::Zone => true,
        _ => false,
    }
}

/// `s` with each `:` replaced by the separator.
pub open spec fn colons_to(s: Seq<char>, sep: Seq<char>) -> Seq<char> {
    replace_char(s, ':', sep)
}

/// The text that the time token `k` appends for the moment `t` and the
/// separator `sep`:
/// - `-date`: the ISO date; `-dateUS`: month, day, year; `-dateEU`: year,
///   month, day (each joined by `sep`);
/// - `-day`, `-month`, `-year`: the number; `-day-name`, `-month-name`: the
///   English name;
/// - `-time`: hour and minute, two digits each, joined by `sep`;
/// - `-time-ms`, `-time-ns`: the millisecond or nanosecond of the second;
/// - `-zone`: the offset from UTC of the moment, which is the offset of the
///   time zone chosen last: `+00:00:00` for UTC (the zone parsing starts in and
///   that `-zoneUTC` selects), the local offset after `-zoneLocal`.
/// In the date tokens, the offset and the sub-second numbers, each `:` (and,
/// in the sub-second numbers, each `.`) is replaced by the separator as well.
pub open spec fn time_token_text(k: ArgKind, t: DateTime, sep: Seq<char>) -> Seq<char> {
    match k {
        ArgKind::Date => colons_to(iso_date_text(t.year as int, t.month as int, t.day as int), sep),
        ArgKind::DateUs => colons_to(
            decimal(t.month as nat) + sep + decimal(t.day as nat) + sep + signed_decimal(
                t.year as int,
            ),
            sep,
        ),
        ArgKind::DateEu => colons_to(
            signed_decimal(t.year as int) + sep + decimal(t.month as nat) + sep + decimal(
                t.day as nat,
            ),
            sep,
        ),
        ArgKind::DayName => weekday_name_spec(t.weekday as int),
        ArgKind::Day => decimal(t.day as nat),
        ArgKind::Month => decimal(t.month as nat),
        ArgKind::MonthName => month_name_spec(t.month as int),
        ArgKind::Year => signed_decimal(t.year as int),
        ArgKind::Time => padded(t.hour as nat, 2) + sep + padded(t.minute as nat, 2),
        ArgKind::TimeMs => replace_char(
            colons_to(decimal((t.nanosecond / 1_000_000) as nat), sep),
            '.',
            sep,
        ),
        ArgKind::TimeNs => replace_char(colons_to(decimal(t.nanosecond as nat), sep), '.', sep),
        _ => colons_to(offset_text_spec(t.offset_seconds as int), sep),
    }
}

/// `st` with a time token `text` appended to the backup directory: after a `/`
/// for the first token, after the argument separator for later ones.
pub open spec fn with_token(st: ArgView, text: Seq<char>) -> ArgView {
    ArgView {
        backup_directory: st.backup_directory + (if st.time_added {
            st.arg_separator
        } else {
            seq!['/']
        }) + text,
        time_added: true,
        ..st
    }
}

/// The argument after position `i`, the value of `flag`.
pub open spec fn next_value(args: Seq<Seq<char>>, i: int, flag: Flag) -> Result<
    Seq<char>,
    ArgError,
> {
    if i + 1 < args.len() {
        Ok(args[i + 1])
    } else {
        Err(ArgError::MissingValue(flag))
    }
}

/// The path that the value of `-p` or `-bp` sets: with each `\` turned into
/// `/` when it holds a `\`, as it is when it holds a `/`, and `None` (the value
/// is reported and ignored) when it holds neither.
pub open spec fn path_value(v: Seq<char>) -> Option<Seq<char>> {
    if v.contains('\\') {
        Some(replace_char(v, '\\', seq!['/']))
    } else if v.contains('/') {
        Some(v)
    } else {
        None
    }
}

/// What `time_parse` computes: the number before the first occurrence of
/// `unit` in `input`, times `seconds`.
pub open spec fn time_parse_spec(input: Seq<char>, unit: Seq<char>, seconds: i64) -> Result<
    i64,
    TimeParseError,
> {
    match first_occurrence(input, unit) {
        None => Err(TimeParseError::UnitMissing),
        Some(k) => match parse_i64_spec(input.take(k)) {
            None => Err(TimeParseError::NotANumber),
            Some(n) => if i64::MIN <= n * seconds <= i64::MAX {
                Ok((n * seconds) as i64)
            } else {
                Err(TimeParseError::Overflow)
            },
        },
    }
}

/// The unit that the value of `-t` is read in and its length in seconds: the
/// first of `s` (second), `h` (hour), `d` (day), `m` (month of 30 days) and `y`
/// (year of 365.2425 days) that occurs in the value.
pub open spec fn duration_unit(v: Seq<char>) -> Option<(char, i64)> {
    if v.contains('s') {
        Some(('s', 1))
    } else if v.contains('h') {
        Some(('h', 3600))
    } else if v.contains('d') {
        Some(('d', 86400))
    } else if v.contains('m') {
        Some(('m', 2592000))
    } else if v.contains('y') {
        Some(('y', 31556952))
    } else {
        None
    }
}

/// The age limit that the value of `-t` sets: `Ok(None)` when it names no
/// unit (the limit stays as it is).
pub open spec fn duration_value(v: Seq<char>) -> Result<Option<u64>, ArgError> {
    match duration_unit(v) {
        None => Ok(None),
        Some((c, secs)) => limit_of(time_parse_spec(v, seq![c], secs)),
    }
}

/// The age limit for the result of reading `-t`: a negative number is
/// refused.
pub open spec fn limit_of(parsed: Result<i64, TimeParseError>) -> Result<Option<u64>, ArgError> {
    match parsed {
        Ok(n) => if n < 0 {
            Err(ArgError::NegativeTime)
        } else {
            Ok(Some(n as u64))
        },
        Err(TimeParseError::Overflow) => Err(ArgError::TimeOverflow),
        // The unit occurs in the value, so only a bad number is left.
        Err(_) => Err(ArgError::TimeNumber),
    }
}

/// An extension as `-ext` and `-ext-neg` store it: trimmed, without dots.
pub open spec fn extension_value(v: Seq<char>) -> Seq<char> {
    replace_char(trim(v), '.', Seq::<char>::empty())
}

/// A step result that changes the state and reports nothing.
pub open spec fn quiet(st: ArgView) -> Result<(ArgView, Option<Seq<char>>), ArgError> {
    Ok((st, None))
}

/// `-p` (or `-bp` when `folder` holds) at position `i`: sets the backup
/// directory (or the folder) to the path of the next argument, or reports it.
pub open spec fn step_path(st: ArgView, args: Seq<Seq<char>>, i: int, folder: bool) -> Result<
    (ArgView, Option<Seq<char>>),
    ArgError,
> {
    match next_value(args, i, if folder { Flag::BackupPath } else { Flag::Path }) {
        Err(e) => Err(e),
        Ok(v) => match path_value(v) {
            Some(p) => if folder {
                quiet(ArgView { folder_path: p, ..st })
            } else {
                quiet(ArgView { backup_directory: p, ..st })
            },
            None => Ok((st, Some(v))),
        },
    }
}

/// `-arg-seperator` (or `-seperator` when `inner` holds) at position `i`: sets
/// that separator to the next argument.
pub open spec fn step_separator(st: ArgView, args: Seq<Seq<char>>, i: int, inner: bool) -> Result<
    (ArgView, Option<Seq<char>>),
    ArgError,
> {
    match next_value(args, i, if inner { Flag::Separator } else { Flag::ArgSeparator }) {
        Err(e) => Err(e),
        Ok(v) => if inner {
            quiet(ArgView { separator: v, ..st })
        } else {
            quiet(ArgView { arg_separator: v, ..st })
        },
    }
}

/// `-t` at position `i`: sets the age limit from the next argument.
pub open spec fn step_duration(st: ArgView, args: Seq<Seq<char>>, i: int) -> Result<
    (ArgView, Option<Seq<char>>),
    ArgError,
> {
    match next_value(args, i, Flag::Time) {
        Err(e) => Err(e),
        Ok(v) => match duration_value(v) {
            Err(e) => Err(e),
            Ok(None) => quiet(st),
            Ok(Some(n)) => quiet(ArgView { time_to_check: n, ..st }),
        },
    }
}

/// `-ext` (or `-ext-neg` when `negated` holds) at position `i`: adds the next
/// argument to the extensions (and makes them ones to leave out).
pub open spec fn step_extension(st: ArgView, args: Seq<Seq<char>>, i: int, negated: bool) -> Result<
    (ArgView, Option<Seq<char>>),
    ArgError,
> {
    match next_value(args, i, if negated { Flag::NegatedExtension } else { Flag::Extension }) {
        Err(e) => Err(e),
        Ok(v) => quiet(
            ArgView {
                extension: st.extension.push(extension_value(v)),
                ext_neg: st.ext_neg || negated,
                ..st
            },
        ),
    }
}

/// A zone flag: the moment becomes the clock's reading; `-zoneLocal` fails
/// when there is none.
pub open spec fn step_zone(st: ArgView, reading: Option<DateTime>) -> Result<
    (ArgView, Option<Seq<char>>),
    ArgError,
> {
    match reading {
        None => Err(ArgError::LocalTimeUnavailable),
        Some(t) => quiet(ArgView { current_time: t, ..st }),
    }
}

/// What an argument of kind `k` at position `i` does to the state `st`.
pub open spec fn step_kind(
    k: ArgKind,
    st: ArgView,
    args: Seq<Seq<char>>,
    i: int,
    reading: Option<DateTime>,
) -> Result<(ArgView, Option<Seq<char>>), ArgError> {
    if is_time_token(k) {
        quiet(with_token(st, time_token_text(k, st.current_time, st.separator)))
    } else {
        match k {
            ArgKind::Path => step_path(st, args, i, false),
            ArgKind::BackupPath => step_path(st, args, i, true),
            ArgKind::ArgSeparator => step_separator(st, args, i, false),
            ArgKind::Separator => step_separator(st, args, i, true),
            ArgKind::ZoneUtc => step_zone(st, reading),
            ArgKind::ZoneLocal => step_zone(st, reading),
            ArgKind::Duration => step_duration(st, args, i),
            ArgKind::Extension => step_extension(st, args, i, false),
            ArgKind::NegatedExtension => step_extension(st, args, i, true),
            _ => quiet(st),
        }
    }
}

/// One step of parsing: what argument `i` of `args` does to the state `st`,
/// by the kind of its trimmed text.  `reading` is what the clock reported for
/// a zone flag (the current moment in UTC for `-zoneUTC`, in the local offset
/// for `-zoneLocal`, `None` when the local offset is unknown).  Besides the new
/// state, a step may report a path value that it ignored.
#[verifier::opaque]
pub open spec fn step(st: ArgView, args: Seq<Seq<char>>, i: int, reading: Option<DateTime>) -> Result<
    (ArgView, Option<Seq<char>>),
    ArgError,
> {
    step_kind(classify(trim(args[i])), st, args, i, reading)
}

/// The trimmed argument `t` is `-zoneUTC`, whose step takes a reading of the
/// UTC clock (which always answers).
pub open spec fn needs_utc(t: Seq<char>) -> bool {
    classify(t) == ArgKind::ZoneUtc
}

/// The kind of the trimmed argument `t`.
pub fn classify_arg(t: &Vec<char>) -> (k: ArgKind)
    ensures
        k == classify(t@),
{
    if chars_eq(t, &chars_of("-p")) {
        ArgKind::Path
    } else if chars_eq(t, &chars_of("-bp")) {
        ArgKind::BackupPath
    } else if chars_eq(t, &chars_of("-date")) {
        ArgKind::Date
    } else if chars_eq(t, &chars_of("-dateUS")) {
        ArgKind::DateUs
    } else if chars_eq(t, &chars_of("-dateEU")) {
        ArgKind::DateEu
    } else if chars_eq(t, &chars_of("-day-name")) {
        ArgKind::DayName
    } else if chars_eq(t, &chars_of("-day")) {
        ArgKind::Day
    } else if chars_eq(t, &chars_of("-month")) {
        ArgKind::Month
    } else if chars_eq(t, &chars_of("-month-name")) {
        ArgKind::MonthName
    } else if chars_eq(t, &chars_of("-year")) {
        ArgKind::Year
    } else if chars_eq(t, &chars_of("-time")) {
        ArgKind::Time
    } else if chars_eq(t, &chars_of("-time-ms")) {
        ArgKind::TimeMs
    } else if chars_eq(t, &chars_of("-time-ns")) {
        ArgKind::TimeNs
    } else if chars_eq(t, &chars_of("-zone")) {
        ArgKind::Zone
    } else if chars_eq(t, &chars_of("-arg-seperator")) {
        ArgKind::ArgSeparator
    } else if chars_eq(t, &chars_of("-seperator")) {
        ArgKind::Separator
    } else if eq_ignore_case(t, &chars_of("-zoneUTC")) {
        ArgKind::ZoneUtc
    } else if eq_ignore_case(t, &chars_of("-zoneLocal")) {
        ArgKind::ZoneLocal
    } else if chars_eq(t, &chars_of("-t")) {
        ArgKind::Duration
    } else if chars_eq(t, &chars_of("-ext")) {
        ArgKind::Extension
    } else if chars_eq(t, &chars_of("-ext-neg")) {
        ArgKind::NegatedExtension
    } else {
        ArgKind::Other
    }
}

/// `a + sep + b + sep + c`.
fn joined3(a: &Vec<char>, b: &Vec<char>, c: &Vec<char>, sep: &Vec<char>) -> (r: Vec<char>)
    ensures
        r@ == a@ + sep@ + b@ + sep@ + c@,
{
    let mut r: Vec<char> = Vec::new();
    push_all(&mut r, a);
    push_all(&mut r, sep);
    push_all(&mut r, b);
    push_all(&mut r, sep);
    push_all(&mut r, c);
    assert(r@ =~= a@ + sep@ + b@ + sep@ + c@);
    r
}

/// The text that the time token `k` appends for the moment `t` and the
/// separator `sep`.
pub fn time_token(k: ArgKind, t: &DateTime, sep: &Vec<char>) -> (r: Vec<char>)
    requires
        is_time_token(k),
        t.wf(),
    ensures
        r@ == time_token_text(k, *t, sep@),
{
    match k {
        ArgKind::Date => {
            let d = date_text(t.year, t.month, t.day);
            replace_chars(&chars_of(d.as_str()), ':', sep)
        },
        ArgKind::DateUs => {
            let m = month_to_number(*t);
            let text = joined3(&chars_of(m.as_str()), &fmt_u64(t.day as u64), &fmt_i64(t.year as i64), sep);
            replace_chars(&text, ':', sep)
        },
        ArgKind::DateEu => {
            let m = month_to_number(*t);
            let text = joined3(&fmt_i64(t.year as i64), &chars_of(m.as_str()), &fmt_u64(t.day as u64), sep);
            replace_chars(&text, ':', sep)
        },
        ArgKind::DayName => {
            let n = weekday_name(t.weekday);
            chars_of(n.as_str())
        },
        ArgKind::Day => fmt_u64(t.day as u64),
        ArgKind::Month => {
            let m = month_to_number(*t);
            chars_of(m.as_str())
        },
        ArgKind::MonthName => {
            let n = month_name(t.month);
            chars_of(n.as_str())
        },
        ArgKind::Year => fmt_i64(t.year as i64),
        ArgKind::Time => {
            let mut r = fmt_padded(t.hour as u64, 2);
            push_all(&mut r, sep);
            push_all(&mut r, &fmt_padded(t.minute as u64, 2));
            r
        },
        ArgKind::TimeMs => {
            let ms = fmt_u64((t.nanosecond / 1_000_000) as u64);
            replace_chars(&replace_chars(&ms, ':', sep), '.', sep)
        },
        ArgKind::TimeNs => {
            let ns = fmt_u64(t.nanosecond as u64);
            replace_chars(&replace_chars(&ns, ':', sep), '.', sep)
        },
        _ => {
            let o = offset_text(t.offset_seconds);
            replace_chars(&chars_of(o.as_str()), ':', sep)
        },
    }
}

/// The number before the first occurrence of `time_format` in `user_input`,
/// times `seconds`; the reason when there is no such number or the product
/// does not fit in an `i64`.
pub fn try_time_parse(user_input: &String, time_format: &str, seconds: i64) -> (r: Result<
    i64,
    TimeParseError,
>)
    ensures
        r == time_parse_spec(user_input@, time_format@, seconds),
{
    let input = chars_of(user_input.as_str());
    let unit = chars_of(time_format);
    match find_chars(&input, &unit) {
        None => Err(TimeParseError::UnitMissing),
        Some(k) => {
            let head = prefix_chars(&input, k);
            scaled_number(&head, seconds)
        },
    }
}

/// The first `k` characters of `s`.
fn prefix_chars(s: &Vec<char>, k: usize) -> (r: Vec<char>)
    requires
        k <= s.len(),
    ensures
        r@ == s@.take(k as int),
{
    let mut head: Vec<char> = Vec::new();
    let mut i: usize = 0;
    while i < k
        invariant
            i <= k <= s.len(),
            head@ == s@.take(i as int),
        decreases k - i,
    {
        head.push(s[i]);
        i = i + 1;
        assert(s@.take(i as int) == s@.take(i - 1) + seq![s@[i - 1]]);
    }
    head
}

/// The number that `head` spells, times `seconds`.
fn scaled_number(head: &Vec<char>, seconds: i64) -> (r: Result<i64, TimeParseError>)
    ensures
        r == (match parse_i64_spec(head@) {
            None => Err(TimeParseError::NotANumber),
            Some(n) => if i64::MIN <= n * seconds <= i64::MAX {
                Ok((n * seconds) as i64)
            } else {
                Err(TimeParseError::Overflow)
            },
        }),
{
    match parse_i64(head) {
        None => Err(TimeParseError::NotANumber),
        Some(n) => match n.checked_mul(seconds) {
            Some(p) => Ok(p),
            None => Err(TimeParseError::Overflow),
        },
    }
}

/// The number before the first occurrence of `time_format` in `user_input`,
/// times `seconds`: `"24h"` read with `"h"` and 3600 gives 86400.
pub fn time_parse(user_input: &String, time_format: &str, seconds: i64) -> (r: i64)
    requires
        time_parse_spec(user_input@, time_format@, seconds) is Ok,
    ensures
        time_parse_spec(user_input@, time_format@, seconds) == Ok::<i64, TimeParseError>(r),
{
    match try_time_parse(user_input, time_format, seconds) {
        Ok(n) => n,
        Err(_) => 0,
    }
}

/// The unit of the value `c` of `-t` (see [`duration_unit`]).
fn unit_of(c: &Vec<char>) -> (r: Option<(char, i64)>)
    ensures
        r == duration_unit(c@),
{
    if contains_char(c, 's') {
        Some(('s', 1))
    } else if contains_char(c, 'h') {
        Some(('h', 3600))
    } else if contains_char(c, 'd') {
        Some(('d', 86400))
    } else if contains_char(c, 'm') {
        Some(('m', 2592000))
    } else if contains_char(c, 'y') {
        Some(('y', 31556952))
    } else {
        None
    }
}

/// The one-character text of a unit.
fn unit_text(c: char) -> (r: &'static str)
    requires
        c == 's' || c == 'h' || c == 'd' || c == 'm' || c == 'y',
    ensures
        r@ == seq![c],
{
    if c == 's' {
        proof {
            reveal_strlit("s");
        }
        "s"
    } else if c == 'h' {
        proof {
            reveal_strlit("h");
        }
        "h"
    } else if c == 'd' {
        proof {
            reveal_strlit("d");
        }
        "d"
    } else if c == 'm' {
        proof {
            reveal_strlit("m");
        }
        "m"
    } else {
        proof {
            reveal_strlit("y");
        }
        "y"
    }
}

/// The age limit for the result of reading `-t`.
fn limit_from(parsed: Result<i64, TimeParseError>) -> (r: Result<Option<u64>, ArgError>)
    ensures
        r == limit_of(parsed),
{
    match parsed {
        Ok(n) => if n < 0 {
            Err(ArgError::NegativeTime)
        } else {
            Ok(Some(n as u64))
        },
        Err(TimeParseError::Overflow) => Err(ArgError::TimeOverflow),
        Err(_) => Err(ArgError::TimeNumber),
    }
}

/// The age limit that the value `v` of `-t` sets.
pub fn duration_of(v: &String) -> (r: Result<Option<u64>, ArgError>)
    ensures
        r == duration_value(v@),
{
    let c = chars_of(v.as_str());
    match unit_of(&c) {
        None => Ok(None),
        Some((u, secs)) => {
            let parsed = try_time_parse(v, unit_text(u), secs);
            limit_from(parsed)
        },
    }
}

/// The path that the value `v` of `-p` or `-bp` sets, or `None` when it holds
/// no separator.
pub fn path_of(v: &String) -> (r: Option<String>)
    ensures
        r matches Some(p) ==> path_value(v@) == Some(p@),
        r is None ==> path_value(v@) is None,
{
    let c = chars_of(v.as_str());
    if contains_char(&c, '\\') {
        let mut slash: Vec<char> = Vec::new();
        slash.push('/');
        Some(string_of(&replace_chars(&c, '\\', &slash)))
    } else if contains_char(&c, '/') {
        Some(string_of(&c))
    } else {
        None
    }
}

/// An extension as `-ext` and `-ext-neg` store it.
pub fn extension_of(v: &String) -> (r: String)
    ensures
        r@ == extension_value(v@),
{
    let t = trim_chars(&chars_of(v.as_str()));
    let none: Vec<char> = Vec::new();
    string_of(&replace_chars(&t, '.', &none))
}

/// The view of an optional string.
pub open spec fn opt_view(o: Option<String>) -> Option<Seq<char>> {
    match o {
        Some(s) => Some(s@),
        None => None,
    }
}

/// The value of the flag at position `i`: the argument after it.
fn flag_value(args: &Vec<String>, i: usize, flag: Flag) -> (r: Result<String, ArgError>)
    requires
        i < args.len(),
    ensures
        match next_value(views(args@), i as int, flag) {
            Ok(v) => r matches Ok(s) && s@ == v,
            Err(e) => r == Err::<String, ArgError>(e),
        },
{
    if i + 1 < args.len() {
        Ok(args[i + 1].clone())
    } else {
        Err(ArgError::MissingValue(flag))
    }
}

/// The result of a step as the exec functions return it matches the spec.
pub open spec fn step_matches(
    spec_result: Result<(ArgView, Option<Seq<char>>), ArgError>,
    r: Result<Option<String>, ArgError>,
    after: ArgView,
) -> bool {
    match spec_result {
        Ok((st, note)) => r matches Ok(n) && after == st && opt_view(n) == note,
        Err(e) => r == Err::<Option<String>, ArgError>(e),
    }
}

fn apply_token(state: &mut ArgState, k: ArgKind)
    requires
        is_time_token(k),
        old(state).current_time.wf(),
    ensures
        final(state)@ == with_token(
            old(state)@,
            time_token_text(k, old(state).current_time, old(state).separator@),
        ),
{
    let sep = chars_of(state.separator.as_str());
    let text = time_token(k, &state.current_time, &sep);
    let mut dir = chars_of(state.backup_directory.as_str());
    let ghost joint = if state.time_added {
        state.arg_separator@
    } else {
        seq!['/']
    };
    if state.time_added {
        push_all(&mut dir, &chars_of(state.arg_separator.as_str()));
    } else {
        dir.push('/');
    }
    assert(dir@ =~= old(state).backup_directory@ + joint);
    push_all(&mut dir, &text);
    state.backup_directory = string_of(&dir);
    state.time_added = true;
    assert(state@ =~= with_token(
        old(state)@,
        time_token_text(k, old(state).current_time, old(state).separator@),
    ));
}

fn apply_path(state: &mut ArgState, args: &Vec<String>, i: usize, folder: bool) -> (r: Result<
    Option<String>,
    ArgError,
>)
    requires
        i < args.len(),
    ensures
        step_matches(step_path(old(state)@, views(args@), i as int, folder), r, final(state)@),
        final(state).current_time == old(state).current_time,
{
    let value = match flag_value(args, i, if folder { Flag::BackupPath } else { Flag::Path }) {
        Ok(v) => v,
        Err(e) => return Err(e),
    };
    match path_of(&value) {
        Some(p) => {
            if folder {
                state.folder_path = p;
            } else {
                state.backup_directory = p;
            }
            Ok(None)
        },
        None => Ok(Some(value)),
    }
}

fn apply_separator(state: &mut ArgState, args: &Vec<String>, i: usize, inner: bool) -> (r: Result<
    Option<String>,
    ArgError,
>)
    requires
        i < args.len(),
    ensures
        step_matches(step_separator(old(state)@, views(args@), i as int, inner), r, final(state)@),
        final(state).current_time == old(state).current_time,
{
    let value = match flag_value(args, i, if inner { Flag::Separator } else { Flag::ArgSeparator }) {
        Ok(v) => v,
        Err(e) => return Err(e),
    };
    if inner {
        state.separator = value;
    } else {
        state.arg_separator = value;
    }
    Ok(None)
}

fn apply_duration(state: &mut ArgState, args: &Vec<String>, i: usize) -> (r: Result<
    Option<String>,
    ArgError,
>)
    requires
        i < args.len(),
    ensures
        step_matches(step_duration(old(state)@, views(args@), i as int), r, final(state)@),
        final(state).current_time == old(state).current_time,
{
    let value = match flag_value(args, i, Flag::Time) {
        Ok(v) => v,
        Err(e) => return Err(e),
    };
    match duration_of(&value) {
        Ok(Some(n)) => {
            state.time_to_check = n;
            Ok(None)
        },
        Ok(None) => Ok(None),
        Err(e) => Err(e),
    }
}

fn apply_extension(state: &mut ArgState, args: &Vec<String>, i: usize, negated: bool) -> (r:
    Result<Option<String>, ArgError>)
    requires
        i < args.len(),
    ensures
        step_matches(step_extension(old(state)@, views(args@), i as int, negated), r, final(state)@),
        final(state).current_time == old(state).current_time,
{
    let value = match flag_value(
        args,
        i,
        if negated { Flag::NegatedExtension } else { Flag::Extension },
    ) {
        Ok(v) => v,
        Err(e) => return Err(e),
    };
    let e = extension_of(&value);
    let ghost before = state.extension@;
    state.extension.push(e);
    assert(views(state.extension@) =~= views(before).push(e@));
    if negated {
        state.ext_neg = true;
    }
    Ok(None)
}

/// Performs step `i` of parsing on `state`: what argument `i` of `args` does
/// (see [`step`]).  `reading` is the clock's answer for a zone flag.  On
/// success, the path value that was ignored, if any, comes back.
pub fn apply_arg(state: &mut ArgState, args: &Vec<String>, i: usize, reading: Option<DateTime>) -> (r:
    Result<Option<String>, ArgError>)
    requires
        i < args.len(),
        old(state).current_time.wf(),
        reading matches Some(t) ==> t.wf(),
        needs_utc(trim(args@[i as int]@)) ==> reading is Some,
    ensures
        step_matches(step(old(state)@, views(args@), i as int, reading), r, final(state)@),
        r is Ok ==> final(state).current_time.wf(),
{
    reveal(step);
    let ghost v = views(args@);
    assert(v[i as int] == args@[i as int]@);
    let t = trim_chars(&chars_of(args[i].as_str()));
    let k = classify_arg(&t);
    match k {
        ArgKind::Date | ArgKind::DateUs | ArgKind::DateEu | ArgKind::DayName | ArgKind::Day
        | ArgKind::Month | ArgKind::MonthName | ArgKind::Year | ArgKind::Time | ArgKind::TimeMs
        | ArgKind::TimeNs | ArgKind::Zone => {
            apply_token(state, k);
            Ok(None)
        },
        ArgKind::Path => apply_path(state, args, i, false),
        ArgKind::BackupPath => apply_path(state, args, i, true),
        ArgKind::ArgSeparator => apply_separator(state, args, i, false),
        ArgKind::Separator => apply_separator(state, args, i, true),
        ArgKind::ZoneUtc | ArgKind::ZoneLocal => match reading {
            Some(now) => {
                state.current_time = now;
                Ok(None)
            },
            None => Err(ArgError::LocalTimeUnavailable),
        },
        ArgKind::Duration => apply_duration(state, args, i),
        ArgKind::Extension => apply_extension(state, args, i, false),
        ArgKind::NegatedExtension => apply_extension(state, args, i, true),
        ArgKind::Other => Ok(None),
    }
}

/// What the first arguments ask for: nothing but the program name gives
/// `NoArguments`; a second argument that is `-help`, `-h` or `help` (in any
/// ASCII case) gives `Help`.
pub open spec fn startup_mode_spec(args: Seq<Seq<char>>) -> StartupMode {
    if args.len() == 1 {
        StartupMode::NoArguments
    } else if args.len() > 1 && (eq_ignore_ascii_case(args[1], "-help"@) || eq_ignore_ascii_case(
        args[1],
        "-h"@,
    ) || eq_ignore_ascii_case(args[1], "help"@)) {
        StartupMode::Help
    } else {
        StartupMode::Normal
    }
}

/// What the first arguments ask for (see [`startup_mode_spec`]).
pub fn startup_mode(args: &Vec<String>) -> (r: StartupMode)
    ensures
        r == startup_mode_spec(views(args@)),
{
    if args.len() == 1 {
        return StartupMode::NoArguments;
    }
    if args.len() > 1 {
        let ghost v = views(args@);
        assert(v[1] == args@[1]@);
        let a = chars_of(args[1].as_str());
        if eq_ignore_case(&a, &chars_of("-help")) || eq_ignore_case(&a, &chars_of("-h"))
            || eq_ignore_case(&a, &chars_of("help")) {
            return StartupMode::Help;
        }
    }
    StartupMode::Normal
}

/// The state parsing starts from: the given settings, the moment `now`, no
/// time token yet, and `.` both between time tokens and inside them.
pub open spec fn initial_view(
    backup_directory: Seq<char>,
    folder_path: Seq<char>,
    time_to_check: u64,
    extension: Seq<Seq<char>>,
    ext_neg: bool,
    now: DateTime,
) -> ArgView {
    ArgView {
        backup_directory,
        folder_path,
        time_to_check,
        extension,
        ext_neg,
        current_time: now,
        time_added: false,
        arg_separator: "."@,
        separator: "."@,
    }
}

/// The reported values as a list.
pub open spec fn note_seq(note: Option<Seq<char>>) -> Seq<Seq<char>> {
    match note {
        Some(v) => seq![v],
        None => Seq::empty(),
    }
}

/// Parsing the arguments from position `i` on, from the state `st` with the
/// values `notes` reported so far; `readings[j]` is the clock's answer for a
/// zone flag at position `j`.  The first refused argument ends it, with the
/// values reported before it.
pub open spec fn run(
    st: ArgView,
    notes: Seq<Seq<char>>,
    args: Seq<Seq<char>>,
    i: int,
    readings: Seq<Option<DateTime>>,
) -> Result<(ArgView, Seq<Seq<char>>), (ArgError, Seq<Seq<char>>)>
    decreases args.len() - i,
{
    if i < 0 || i >= args.len() {
        Ok((st, notes))
    } else {
        match step(st, args, i, readings[i]) {
            Err(e) => Err((e, notes)),
            Ok((next, note)) => run(next, notes + note_seq(note), args, i + 1, readings),
        }
    }
}

/// A reading of the UTC clock: a moment whose offset is 0.
pub open spec fn utc_reading(reading: Option<DateTime>) -> bool {
    reading matches Some(t) && t.offset_seconds == 0
}

/// Clock answers that the clock can give for `args`: one per argument, each a
/// valid moment, and a moment in UTC for every `-zoneUTC` (the UTC clock
/// always answers).
pub open spec fn possible_readings(args: Seq<Seq<char>>, readings: Seq<Option<DateTime>>) -> bool {
    &&& readings.len() == args.len()
    &&& forall|j: int|
        0 <= j < readings.len() ==> (#[trigger] readings[j] matches Some(t) ==> t.wf())
    &&& forall|j: int|
        0 <= j < args.len() && needs_utc(trim(args[j])) ==> utc_reading(#[trigger] readings[j])
}

/// What parsing gives back.
#[derive(Debug, PartialEq, Eq)]
pub enum ParseOutcome {
    /// The help text was asked for; nothing was parsed.
    Help,
    /// The arguments were parsed; these path values were ignored because they
    /// hold no separator, in the order of the arguments.
    Parsed(Vec<String>),
}

/// A refused command line: the refusal and the path values ignored before it,
/// in the order of the arguments.  The program stops with the refusal.
#[derive(Debug, PartialEq, Eq)]
pub struct ParseFailure {
    pub error: ArgError,
    pub ignored: Vec<String>,
}

/// The result and the settings after `parse_args` agree with the spec result
/// `res`.
pub open spec fn run_agrees(
    res: Result<(ArgView, Seq<Seq<char>>), (ArgError, Seq<Seq<char>>)>,
    r: Result<ParseOutcome, ParseFailure>,
    backup_directory: Seq<char>,
    folder_path: Seq<char>,
    time_to_check: u64,
    extension: Seq<Seq<char>>,
    ext_neg: bool,
) -> bool {
    match res {
        Ok((fin, notes)) => {
            &&& r matches Ok(ParseOutcome::Parsed(ns))
            &&& views(ns@) == notes
            &&& backup_directory == fin.backup_directory
            &&& folder_path == fin.folder_path
            &&& time_to_check == fin.time_to_check
            &&& extension == fin.extension
            &&& ext_neg == fin.ext_neg
        },
        Err((e, notes)) => r matches Err(f) && f.error == e && views(f.ignored@) == notes,
    }
}

proof fn lemma_run_unfold(
    st: ArgView,
    notes: Seq<Seq<char>>,
    args: Seq<Seq<char>>,
    i: int,
    readings: Seq<Option<DateTime>>,
)
    requires
        0 <= i < args.len(),
    ensures
        run(st, notes, args, i, readings) == (match step(st, args, i, readings[i]) {
            Err(e) => Err((e, notes)),
            Ok((next, note)) => run(next, notes + note_seq(note), args, i + 1, readings),
        }),
{
}

/// Parsing from the start equals parsing on from step `i + 1` once step `i`
/// succeeded, for every choice of later clock answers.
proof fn lemma_run_advance(
    init: ArgView,
    a: Seq<Seq<char>>,
    i: int,
    rs: Seq<Option<DateTime>>,
    reading: Option<DateTime>,
    before: ArgView,
    notes: Seq<Seq<char>>,
    after: ArgView,
    note: Option<Seq<char>>,
)
    requires
        0 <= i < a.len(),
        rs.len() == i,
        forall|rr: Seq<Option<DateTime>>|
            rr.len() == a.len() && rr.take(i) == rs ==> #[trigger] run(init, Seq::empty(), a, 0, rr)
                == run(before, notes, a, i, rr),
        step(before, a, i, reading) == Ok::<(ArgView, Option<Seq<char>>), ArgError>((after, note)),
    ensures
        forall|rr: Seq<Option<DateTime>>|
            rr.len() == a.len() && rr.take(i + 1) == rs.push(reading) ==> #[trigger] run(
                init,
                Seq::empty(),
                a,
                0,
                rr,
            ) == run(after, notes + note_seq(note), a, i + 1, rr),
{
    assert forall|rr: Seq<Option<DateTime>>|
        rr.len() == a.len() && rr.take(i + 1) == rs.push(reading) implies #[trigger] run(
        init,
        Seq::empty(),
        a,
        0,
        rr,
    ) == run(after, notes + note_seq(note), a, i + 1, rr) by {
        assert(rr.take(i) =~= rs);
        assert(rr[i] == rs.push(reading)[i]);
        lemma_run_unfold(before, notes, a, i, rr);
    }
}

/// When step `i` is refused, some possible choice of later clock answers makes
/// parsing from the start end with the same refusal.
proof fn lemma_run_stop(
    init: ArgView,
    a: Seq<Seq<char>>,
    i: int,
    rs: Seq<Option<DateTime>>,
    reading: Option<DateTime>,
    before: ArgView,
    notes: Seq<Seq<char>>,
    e: ArgError,
    utc: DateTime,
) -> (rr: Seq<Option<DateTime>>)
    requires
        0 <= i < a.len(),
        rs.len() == i,
        utc.wf(),
        utc.offset_seconds == 0,
        forall|j: int| 0 <= j < i ==> (#[trigger] rs[j] matches Some(t) ==> t.wf()),
        forall|j: int| 0 <= j < i && needs_utc(trim(a[j])) ==> utc_reading(#[trigger] rs[j]),
        reading matches Some(t) ==> t.wf(),
        needs_utc(trim(a[i])) ==> utc_reading(reading),
        forall|rr: Seq<Option<DateTime>>|
            rr.len() == a.len() && rr.take(i) == rs ==> #[trigger] run(init, Seq::empty(), a, 0, rr)
                == run(before, notes, a, i, rr),
        step(before, a, i, reading) == Err::<(ArgView, Option<Seq<char>>), ArgError>(e),
    ensures
        possible_readings(a, rr),
        run(init, Seq::empty(), a, 0, rr) == Err::<(ArgView, Seq<Seq<char>>), (ArgError, Seq<Seq<char>>)>((e, notes)),
{
    let fill = Seq::new((a.len() - i - 1) as nat, |j: int| Some(utc));
    let rr = rs.push(reading) + fill;
    assert(rr.take(i) =~= rs);
    assert(rr[i] == reading);
    lemma_run_unfold(before, notes, a, i, rr);
    assert forall|j: int| 0 <= j < rr.len() implies (#[trigger] rr[j] matches Some(t) ==> t.wf()) by {
        if j < i {
            assert(rr[j] == rs[j]);
        } else if j > i {
            assert(rr[j] == fill[j - i - 1]);
        }
    }
    assert forall|j: int| 0 <= j < a.len() && needs_utc(trim(a[j])) implies utc_reading(#[trigger] rr[j]) by {
        if j < i {
            assert(rr[j] == rs[j]);
        } else if j > i {
            assert(rr[j] == fill[j - i - 1]);
        }
    }
    rr
}

/// Parses the command line `args` (`args[0]` is the program name) into the
/// settings: the backup directory, the age limit in seconds, the extensions,
/// whether they are negated, and the folder to back up.  The clock is read
/// once at the start (UTC) and again at each zone flag.
///
/// When the help text is asked for, nothing changes.  Otherwise the settings
/// and the result are those of [`run`] from the initial state, for some
/// moment in UTC that the clock gave at the start and the answers it gave at
/// the zone flags.  A refused command line (a value flag that is the last
/// argument, a bad `-t` value, an unknown local offset) comes back as a
/// [`ParseFailure`]; the program stops on it with the refusal's message.
pub fn parse_args(
    args: &Vec<String>,
    backup_directory: &mut String,
    time_to_check: &mut u64,
    extension: &mut Vec<String>,
    ext_neg: &mut bool,
    folder_path: &mut String,
) -> (r: Result<ParseOutcome, ParseFailure>)
    ensures
        startup_mode_spec(views(args@)) == StartupMode::Help ==> {
            &&& r matches Ok(ParseOutcome::Help)
            &&& final(backup_directory)@ == old(backup_directory)@
            &&& final(folder_path)@ == old(folder_path)@
            &&& *final(time_to_check) == *old(time_to_check)
            &&& final(extension)@ == old(extension)@
            &&& *final(ext_neg) == *old(ext_neg)
        },
        startup_mode_spec(views(args@)) != StartupMode::Help ==> exists|
            now: DateTime,
            readings: Seq<Option<DateTime>>,
        |
            #![trigger run(
                initial_view(
                    old(backup_directory)@,
                    old(folder_path)@,
                    *old(time_to_check),
                    views(old(extension)@),
                    *old(ext_neg),
                    now,
                ),
                Seq::empty(),
                views(args@),
                0,
                readings,
            )]
            {
                &&& now.wf()
                &&& now.offset_seconds == 0
                &&& possible_readings(views(args@), readings)
                &&& run_agrees(
                    run(
                        initial_view(
                            old(backup_directory)@,
                            old(folder_path)@,
                            *old(time_to_check),
                            views(old(extension)@),
                            *old(ext_neg),
                            now,
                        ),
                        Seq::empty(),
                        views(args@),
                        0,
                        readings,
                    ),
                    r,
                    final(backup_directory)@,
                    final(folder_path)@,
                    *final(time_to_check),
                    views(final(extension)@),
                    *final(ext_neg),
                )
            },
{
    if startup_mode(args) == StartupMode::Help {
        return Ok(ParseOutcome::Help);
    }
    let ghost a = views(args@);
    let now = now_utc();
    let ghost init = initial_view(
        backup_directory@,
        folder_path@,
        *time_to_check,
        views(extension@),
        *ext_neg,
        now,
    );
    let mut state = ArgState {
        backup_directory: backup_directory.clone(),
        folder_path: folder_path.clone(),
        time_to_check: *time_to_check,
        extension: extension.clone(),
        ext_neg: *ext_neg,
        current_time: now,
        time_added: false,
        arg_separator: string_of(&chars_of(".")),
        separator: string_of(&chars_of(".")),
    };
    assert(state@ =~= init);
    let mut notes: Vec<String> = Vec::new();
    assert(views(notes@) =~= Seq::<Seq<char>>::empty());
    let ghost mut rs: Seq<Option<DateTime>> = Seq::empty();
    let mut i: usize = 0;
    while i < args.len()
        invariant
            a == views(args@),
            startup_mode_spec(a) != StartupMode::Help,
            i <= args.len(),
            rs.len() == i,
            state.current_time.wf(),
            forall|j: int| 0 <= j < i ==> (#[trigger] rs[j] matches Some(t) ==> t.wf()),
            forall|j: int| 0 <= j < i && needs_utc(trim(a[j])) ==> utc_reading(#[trigger] rs[j]),
            forall|rr: Seq<Option<DateTime>>|
                rr.len() == a.len() && rr.take(i as int) == rs ==> #[trigger] run(
                    init,
                    Seq::empty(),
                    a,
                    0,
                    rr,
                ) == run(state@, views(notes@), a, i as int, rr),
            init == initial_view(
                old(backup_directory)@,
                old(folder_path)@,
                *old(time_to_check),
                views(old(extension)@),
                *old(ext_neg),
                now,
            ),
            now.wf(),
            now.offset_seconds == 0,
            backup_directory@ == old(backup_directory)@,
            folder_path@ == old(folder_path)@,
            *time_to_check == *old(time_to_check),
            extension@ == old(extension)@,
            *ext_neg == *old(ext_neg),
        decreases args.len() - i,
    {
        assert(a[i as int] == args@[i as int]@);
        let t = trim_chars(&chars_of(args[i].as_str()));
        let k = classify_arg(&t);
        let reading = if k == ArgKind::ZoneUtc {
            Some(now_utc())
        } else if k == ArgKind::ZoneLocal {
            now_local()
        } else {
            None
        };
        let ghost before = state@;
        let ghost notes_before = views(notes@);
        let step_result = apply_arg(&mut state, args, i, reading);
        match step_result {
            Err(e) => {
                proof {
                    let rr = lemma_run_stop(init, a, i as int, rs, reading, before, notes_before, e, now);
                    assert(run_agrees(
                        run(init, Seq::empty(), a, 0, rr),
                        Err(ParseFailure { error: e, ignored: notes }),
                        backup_directory@,
                        folder_path@,
                        *time_to_check,
                        views(extension@),
                        *ext_neg,
                    ));
                }
                return Err(ParseFailure { error: e, ignored: notes });
            },
            Ok(note) => {
                let ghost notes_mid = views(notes@);
                match note {
                    Some(n) => {
                        notes.push(n);
                    },
                    None => {},
                }
                proof {
                    assert(views(notes@) =~= notes_mid + note_seq(opt_view(note)));
                    lemma_run_advance(
                        init,
                        a,
                        i as int,
                        rs,
                        reading,
                        before,
                        notes_before,
                        state@,
                        opt_view(note),
                    );
                    rs = rs.push(reading);
                }
            },
        }
        i = i + 1;
    }
    proof {
        assert(rs.take(a.len() as int) =~= rs);
        assert(possible_readings(a, rs));
    }
    *backup_directory = state.backup_directory;
    *folder_path = state.folder_path;
    *time_to_check = state.time_to_check;
    *extension = state.extension;
    *ext_neg = state.ext_neg;
    proof {
        assert(run(init, Seq::empty(), a, 0, rs) == run(state@, views(notes@), a, a.len() as int, rs));
    }
    Ok(ParseOutcome::Parsed(notes))
}

/// The unit letters of `-t` and their lengths in seconds.
pub open spec fn unit_seconds(u: char) -> int {
    if u == 's' {
        1
    } else if u == 'h' {
        3600
    } else if u == 'd' {
        86400
    } else if u == 'm' {
        2592000
    } else {
        31556952
    }
}

/// In digits followed by one letter, that letter is the only non-digit.
proof fn lemma_digits_then_letter(d: Seq<char>, u: char, c: char)
    requires
        crate::number::all_digits(d),
        !crate::number::is_digit(c),
    ensures
        (d + seq![u]).contains(c) == (c == u),
{
    let v = d + seq![u];
    if v.contains(c) {
        let j = choose|j: int| 0 <= j < v.len() && v[j] == c;
        if j < d.len() {
            assert(v[j] == d[j]);
        }
    }
    if c == u {
        assert(v[d.len() as int] == u);
    }
}

/// In digits followed by the letter `u`, `u` first occurs after the digits.
proof fn lemma_letter_first_at_end(d: Seq<char>, u: char)
    requires
        crate::number::all_digits(d),
        !crate::number::is_digit(u),
    ensures
        first_occurrence(d + seq![u], seq![u]) == Some(d.len() as int),
{
    let v = d + seq![u];
    let p = seq![u];
    let k = d.len() as int;
    assert(v.subrange(k, k + 1) =~= p);
    assert forall|j: int| 0 <= j < k implies !crate::text::occurs_at(v, p, j) by {
        assert(v.subrange(j, j + 1)[0] == d[j]);
    }
    assert(crate::text::occurs_at(v, p, k));
    let w = choose|w: int|
        crate::text::occurs_at(v, p, w) && forall|j: int| 0 <= j < w ==> !crate::text::occurs_at(v, p, j);
    if w != k {
        assert(v.subrange(w, w + 1)[0] == v[w]);
    }
}

/// `-t` with a number and a unit letter (as `24d`, `24h`, `1m`, `120s`) sets
/// the age limit to the number times the unit's seconds.
#[verifier::spinoff_prover]
#[verifier::rlimit(40)]
pub proof fn law_duration_number_unit(n: nat, u: char)
    requires
        u == 's' || u == 'h' || u == 'd' || u == 'm' || u == 'y',
        n * unit_seconds(u) <= i64::MAX,
    ensures
        duration_value(decimal(n) + seq![u]) == Ok::<Option<u64>, ArgError>(
            Some((n * unit_seconds(u)) as u64),
        ),
{
    crate::number::lemma_decimal_digits(n);
    let d = decimal(n);
    let v = d + seq![u];
    lemma_digits_then_letter(d, u, 's');
    lemma_digits_then_letter(d, u, 'h');
    lemma_digits_then_letter(d, u, 'd');
    lemma_digits_then_letter(d, u, 'm');
    lemma_digits_then_letter(d, u, 'y');
    assert(duration_unit(v) == Some((u, unit_seconds(u) as i64)));
    lemma_letter_first_at_end(d, u);
    assert(v.take(d.len() as int) =~= d);
    crate::number::law_parse_decimal(n);
}

/// Modifiers take effect on the arguments after them: `-seperator` changes
/// the separator for later time tokens and leaves the backup directory built
/// so far as it is.
pub proof fn law_separator_applies_after(
    st: ArgView,
    args: Seq<Seq<char>>,
    i: int,
    reading: Option<DateTime>,
)
    requires
        0 <= i,
        i + 1 < args.len(),
        trim(args[i]) == "-seperator"@,
    ensures
        step(st, args, i, reading) == Ok::<(ArgView, Option<Seq<char>>), ArgError>(
            (ArgView { separator: args[i + 1], ..st }, None),
        ),
{
    reveal(step);
    reveal_strlit("-seperator");
    reveal_strlit("-p");
    reveal_strlit("-bp");
    reveal_strlit("-date");
    reveal_strlit("-dateUS");
    reveal_strlit("-dateEU");
    reveal_strlit("-day-name");
    reveal_strlit("-day");
    reveal_strlit("-month");
    reveal_strlit("-month-name");
    reveal_strlit("-year");
    reveal_strlit("-time");
    reveal_strlit("-time-ms");
    reveal_strlit("-time-ns");
    reveal_strlit("-zone");
    reveal_strlit("-arg-seperator");
    let t = trim(args[i]);
    assert(t.len() == 10);
    assert(t != "-p"@);
    assert(t != "-bp"@);
    assert(t != "-date"@);
    assert(t != "-dateUS"@);
    assert(t != "-dateEU"@);
    assert(t != "-day-name"@);
    assert(t != "-day"@);
    assert(t != "-month"@);
    assert(t != "-month-name"@);
    assert(t != "-year"@);
    assert(t != "-time"@);
    assert(t != "-time-ms"@);
    assert(t != "-time-ns"@);
    assert(t != "-zone"@);
    assert(t != "-arg-seperator"@);
    assert(classify(t) == ArgKind::Separator);
}

/// Time tokens are appended in the order given: the first after a `/` (a new
/// directory level), the next after the argument separator.
pub proof fn law_time_tokens_join(
    st: ArgView,
    args: Seq<Seq<char>>,
    i: int,
    first: Option<DateTime>,
    second: Option<DateTime>,
)
    requires
        0 <= i,
        i + 1 < args.len(),
        !st.time_added,
        is_time_token(classify(trim(args[i]))),
        is_time_token(classify(trim(args[i + 1]))),
    ensures
        ({
            &&& step(st, args, i, first) matches Ok((s1, n1))
            &&& n1 is None
            &&& step(s1, args, i + 1, second) matches Ok((s2, n2))
            &&& n2 is None
            &&& s2.time_added
            &&& s2.backup_directory == st.backup_directory + seq!['/'] + time_token_text(
                classify(trim(args[i])),
                st.current_time,
                st.separator,
            ) + st.arg_separator + time_token_text(
                classify(trim(args[i + 1])),
                st.current_time,
                st.separator,
            )
        }),
{
    reveal(step);
}

/// An extension stored by `-ext` or `-ext-neg` holds no dot.
pub proof fn law_extension_without_dots(v: Seq<char>)
    ensures
        !extension_value(v).contains('.'),
{
    lemma_replace_removes(trim(v), '.');
}

proof fn lemma_replace_removes(s: Seq<char>, c: char)
    ensures
        !replace_char(s, c, Seq::<char>::empty()).contains(c),
    decreases s.len(),
{
    if s.len() > 0 {
        lemma_replace_removes(s.drop_last(), c);
        let r = replace_char(s, c, Seq::<char>::empty());
        let head = replace_char(s.drop_last(), c, Seq::<char>::empty());
        if s.last() == c {
            assert(r =~= head);
        } else {
            assert(r =~= head + seq![s.last()]);
            assert forall|j: int| 0 <= j < r.len() implies r[j] != c by {
                if j < head.len() {
                    assert(r[j] == head[j]);
                }
            }
        }
    }
}

/// `-day-name` names the weekday of the moment's calendar date.
pub proof fn law_day_name_of_date(t: DateTime, sep: Seq<char>)
    requires
        t.wf(),
    ensures
        time_token_text(ArgKind::DayName, t, sep) == weekday_name_spec(
            crate::clock::weekday_of_date(t.year as int, t.month as int, t.day as int),
        ),
{
}

/// `-zone` shows the offset of the zone chosen last: after `-zoneLocal` with a
/// local reading, that reading's offset; after `-zoneUTC`, `+00:00:00`.
pub proof fn law_zone_shows_chosen_offset(
    st: ArgView,
    args: Seq<Seq<char>>,
    i: int,
    reading: Option<DateTime>,
)
    requires
        0 <= i < args.len(),
        classify(trim(args[i])) == ArgKind::ZoneUtc || classify(trim(args[i])) == ArgKind::ZoneLocal,
        reading matches Some(t),
    ensures
        step(st, args, i, reading) matches Ok((next, _)) && time_token_text(
            ArgKind::Zone,
            next.current_time,
            next.separator,
        ) == colons_to(offset_text_spec(reading.unwrap().offset_seconds as int), st.separator),
{
    reveal(step);
}

/// A number below 100 padded to two digits is two digits that spell it.
proof fn lemma_two_digits(n: nat)
    requires
        n < 100,
    ensures
        padded(n, 2).len() == 2,
        crate::number::all_digits(padded(n, 2)),
        crate::number::digits_value(padded(n, 2)) == n,
{
    crate::number::lemma_decimal_digits(n);
    let d = decimal(n);
    if n >= 10 {
        crate::number::lemma_decimal_digits(n / 10);
        assert(decimal(n / 10).len() == 1);
        assert(d.len() == 2);
    } else {
        assert(d.len() == 1);
        let p = padded(n, 2);
        assert(p =~= seq!['0', d[0]]);
        assert(p.drop_last() =~= seq!['0']);
        assert(seq!['0'].drop_last() =~= Seq::<char>::empty());
        assert(crate::number::digits_value(Seq::<char>::empty()) == 0);
        assert(seq!['0'].last() == '0');
        assert(crate::number::digit_value('0') == 0);
        assert(crate::number::digits_value(seq!['0']) == crate::number::digits_value(
            seq!['0'].drop_last(),
        ) * 10 + crate::number::digit_value(seq!['0'].last()));
        assert(crate::number::digits_value(seq!['0']) == 0);
        assert(d.drop_last() =~= Seq::<char>::empty());
        assert(crate::number::digits_value(d) == crate::number::digit_value(d[0]));
        assert(crate::number::is_digit(d[0]));
        assert forall|i: int| 0 <= i < p.len() implies crate::number::is_digit(#[trigger] p[i]) by {
            if i == 1 {
                assert(p[1] == d[0]);
            }
        }
    }
}

/// `-time` writes the hour of the day (0 to 23) in two digits, the separator,
/// then the minute in two digits: reading the digits back gives the moment's
/// hour and minute.
pub proof fn law_time_token_hour_minute(t: DateTime, sep: Seq<char>)
    requires
        t.wf(),
    ensures
        ({
            let tok = time_token_text(ArgKind::Time, t, sep);
            &&& tok.len() == 4 + sep.len()
            &&& crate::number::all_digits(tok.take(2))
            &&& crate::number::digits_value(tok.take(2)) == t.hour
            &&& tok.subrange(2, 2 + sep.len() as int) == sep
            &&& crate::number::all_digits(tok.skip(2 + sep.len() as int))
            &&& crate::number::digits_value(tok.skip(2 + sep.len() as int)) == t.minute
        }),
{
    lemma_two_digits(t.hour as nat);
    lemma_two_digits(t.minute as nat);
    let h = padded(t.hour as nat, 2);
    let m = padded(t.minute as nat, 2);
    let tok = time_token_text(ArgKind::Time, t, sep);
    assert(tok == h + sep + m);
    assert(tok.take(2) =~= h);
    assert(tok.subrange(2, 2 + sep.len() as int) =~= sep);
    assert(tok.skip(2 + sep.len() as int) =~= m);
}

/// Replacing a character by one other character changes only that character.
proof fn lemma_replace_by_one(s: Seq<char>, from: char, to: char)
    ensures
        replace_char(s, from, seq![to]).len() == s.len(),
        forall|i: int|
            0 <= i < s.len() ==> #[trigger] replace_char(s, from, seq![to])[i] == (if s[i] == from {
                to
            } else {
                s[i]
            }),
    decreases s.len(),
{
    if s.len() > 0 {
        lemma_replace_by_one(s.drop_last(), from, to);
        let r = replace_char(s, from, seq![to]);
        let head = replace_char(s.drop_last(), from, seq![to]);
        assert forall|i: int| 0 <= i < s.len() implies #[trigger] r[i] == (if s[i] == from {
            to
        } else {
            s[i]
        }) by {
            if i < s.len() - 1 {
                assert(r[i] == head[i]);
                assert(s[i] == s.drop_last()[i]);
            }
        }
    }
}

/// The value of `-p` or `-bp` is taken as given when it holds `/` and no `\`;
/// when it holds a `\`, each `\` becomes `/` and every other character stays
/// in its place; with neither, it is refused.
pub proof fn law_path_value_keeps_text(v: Seq<char>)
    ensures
        !v.contains('\\') && v.contains('/') ==> path_value(v) == Some(v),
        v.contains('\\') ==> (path_value(v) matches Some(p) && p.len() == v.len() && forall|i: int|
            0 <= i < v.len() ==> #[trigger] p[i] == (if v[i] == '\\' {
                '/'
            } else {
                v[i]
            })),
        !v.contains('\\') && !v.contains('/') ==> path_value(v) is None,
{
    lemma_replace_by_one(v, '\\', '/');
}

/// Removing every occurrence of a character keeps the others, in order.
proof fn lemma_remove_is_filter(s: Seq<char>, c: char)
    ensures
        replace_char(s, c, Seq::<char>::empty()) == s.filter(|x: char| x != c),
    decreases s.len(),
{
    reveal_with_fuel(Seq::filter, 1);
    if s.len() > 0 {
        lemma_remove_is_filter(s.drop_last(), c);
        let head = replace_char(s.drop_last(), c, Seq::<char>::empty());
        if s.last() == c {
            assert(replace_char(s, c, Seq::<char>::empty()) =~= head);
        } else {
            assert(replace_char(s, c, Seq::<char>::empty()) =~= head.push(s.last()));
        }
    }
}

/// An extension given to `-ext` or `-ext-neg` is stored as the trimmed value
/// with its dots left out; every other character is kept as it is (case
/// included), in order.
pub proof fn law_extension_keeps_characters(v: Seq<char>)
    ensures
        extension_value(v) == trim(v).filter(|c: char| c != '.'),
{
    lemma_remove_is_filter(trim(v), '.');
}

} // verus!
