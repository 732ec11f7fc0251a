use backupr::args::{
    apply_arg, duration_of, extension_of, parse_args, path_of, startup_mode, time_parse,
    try_time_parse, ArgError, ArgState, Flag, ParseFailure, ParseOutcome, StartupMode,
    TimeParseError,
};
use backupr::clock::DateTime;

fn moment() -> DateTime {
    DateTime {
        year: 2024,
        month: 3,
        day: 5,
        weekday: 1,
        hour: 9,
        minute: 7,
        second: 30,
        nanosecond: 123_456_789,
        offset_seconds: -19800,
    }
}

fn state() -> ArgState {
    ArgState {
        backup_directory: "/home/u/backups//proj".to_string(),
        folder_path: "/work/proj".to_string(),
        time_to_check: u64::MAX,
        extension: Vec::new(),
        ext_neg: false,
        current_time: moment(),
        time_added: false,
        arg_separator: ".".to_string(),
        separator: ".".to_string(),
    }
}

fn args(a: &[&str]) -> Vec<String> {
    a.iter().map(|s| s.to_string()).collect()
}

fn run_all(st: &mut ArgState, a: &Vec<String>) -> Result<Vec<String>, ArgError> {
    let mut notes = Vec::new();
    for i in 0..a.len() {
        if let Some(n) = apply_arg(st, a, i, None)? {
            notes.push(n);
        }
    }
    Ok(notes)
}

fn token(flag: &str) -> String {
    let mut st = state();
    let a = args(&[flag]);
    apply_arg(&mut st, &a, 0, None).unwrap();
    st.backup_directory["/home/u/backups//proj/".len()..].to_string()
}

#[test]
fn time_parse_readme_examples() {
    let s = |x: &str| x.to_string();
    assert_eq!(time_parse(&s("24d"), "d", 86400), 2_073_600);
    assert_eq!(time_parse(&s("24h"), "h", 3600), 86_400);
    assert_eq!(time_parse(&s("1m"), "m", 2_592_000), 2_592_000);
    assert_eq!(time_parse(&s("120s"), "s", 1), 120);
}

#[test]
fn time_parse_errors() {
    let s = |x: &str| x.to_string();
    assert_eq!(try_time_parse(&s("24"), "h", 3600), Err(TimeParseError::UnitMissing));
    assert_eq!(try_time_parse(&s("2x4h"), "h", 3600), Err(TimeParseError::NotANumber));
    assert_eq!(try_time_parse(&s("h"), "h", 3600), Err(TimeParseError::NotANumber));
    assert_eq!(
        try_time_parse(&s("9223372036854775807h"), "h", 3600),
        Err(TimeParseError::Overflow)
    );
    assert_eq!(try_time_parse(&s("-2h"), "h", 3600), Ok(-7200));
    assert_eq!(try_time_parse(&s("5hh"), "h", 3600), Ok(18000));
}

#[test]
fn duration_values() {
    let s = |x: &str| x.to_string();
    assert_eq!(duration_of(&s("24d")), Ok(Some(2_073_600)));
    assert_eq!(duration_of(&s("2y")), Ok(Some(63_113_904)));
    assert_eq!(duration_of(&s("1m")), Ok(Some(2_592_000)));
    assert_eq!(duration_of(&s("100")), Ok(None));
    assert_eq!(duration_of(&s("5days")), Err(ArgError::TimeNumber));
    assert_eq!(duration_of(&s("-3h")), Err(ArgError::NegativeTime));
    assert_eq!(duration_of(&s("9223372036854775807d")), Err(ArgError::TimeOverflow));
}

#[test]
fn path_values() {
    let s = |x: &str| x.to_string();
    assert_eq!(path_of(&s("C:\\backup\\x")), Some(s("C:/backup/x")));
    assert_eq!(path_of(&s("a/b\\c")), Some(s("a/b/c")));
    assert_eq!(path_of(&s("/mnt/b")), Some(s("/mnt/b")));
    assert_eq!(path_of(&s("nosep")), None);
}

#[test]
fn extension_values() {
    let s = |x: &str| x.to_string();
    assert_eq!(extension_of(&s(" .txt ")), "txt");
    assert_eq!(extension_of(&s("tar.gz")), "targz");
    assert_eq!(extension_of(&s("-no-extension")), "-no-extension");
}

#[test]
fn law_extension_without_dots_on_values() {
    for v in ["...", " a.b.c ", ".", "x"] {
        assert!(!extension_of(&v.to_string()).contains('.'));
    }
}

#[test]
fn time_tokens() {
    assert_eq!(token("-date"), "2024-03-05");
    assert_eq!(token("-dateUS"), "3.5.2024");
    assert_eq!(token("-dateEU"), "2024.3.5");
    assert_eq!(token("-day-name"), "Tuesday");
    assert_eq!(token("-day"), "5");
    assert_eq!(token("-month"), "3");
    assert_eq!(token("-month-name"), "March");
    assert_eq!(token("-year"), "2024");
    assert_eq!(token("-time"), "09.07");
    assert_eq!(token("-time-ms"), "123");
    assert_eq!(token("-time-ns"), "123456789");
    assert_eq!(token("-zone"), "-05.30.00");
    assert_eq!(token("  -date  "), "2024-03-05");
}

#[test]
fn law_time_tokens_join_on_values() {
    let mut st = state();
    let a = args(&["prog", "-date", "-dateUS", "-seperator", "_", "-time"]);
    let notes = run_all(&mut st, &a).unwrap();
    assert!(notes.is_empty());
    assert_eq!(
        st.backup_directory,
        "/home/u/backups//proj/2024-03-05.3.5.2024.09_07"
    );
    assert!(st.time_added);
}

#[test]
fn law_separator_applies_after_on_values() {
    let mut st = state();
    let a = args(&["-year", "-arg-seperator", "+", "-seperator", ":", "-time", "-day"]);
    run_all(&mut st, &a).unwrap();
    assert_eq!(st.backup_directory, "/home/u/backups//proj/2024+09:07+5");
    assert_eq!(st.separator, ":");
    assert_eq!(st.arg_separator, "+");
}

#[test]
fn separator_with_colons_is_replaced_again() {
    let mut st = state();
    let a = args(&["-seperator", "a:b", "-dateUS"]);
    run_all(&mut st, &a).unwrap();
    assert_eq!(st.backup_directory, "/home/u/backups//proj/3a:b5a:b2024".replace(':', "a:b"));
}

#[test]
fn zone_flags_take_the_reading() {
    let mut st = state();
    let a = args(&["-ZONEutc", "-zonelocal"]);
    let mut later = moment();
    later.offset_seconds = 0;
    later.year = 2030;
    later.weekday = 1; // 2030-03-05 is a Tuesday as well
    assert_eq!(apply_arg(&mut st, &a, 0, Some(later)), Ok(None));
    assert_eq!(st.current_time, later);
    assert_eq!(apply_arg(&mut st, &a, 1, None), Err(ArgError::LocalTimeUnavailable));
    let mut st = state();
    assert_eq!(apply_arg(&mut st, &a, 1, Some(later)), Ok(None));
    assert_eq!(st.current_time.year, 2030);
}

#[test]
fn value_flags() {
    let mut st = state();
    let a = args(&[
        "prog", "-p", "C:\\backup\\x", "-bp", "data/src", "-t", "2h", "-ext", " .txt ", "-ext-neg",
        "log", "-p", "nosep",
    ]);
    let notes = run_all(&mut st, &a).unwrap();
    assert_eq!(notes, vec!["nosep".to_string()]);
    assert_eq!(st.backup_directory, "C:/backup/x");
    assert_eq!(st.folder_path, "data/src");
    assert_eq!(st.time_to_check, 7200);
    assert_eq!(st.extension, vec!["txt".to_string(), "log".to_string()]);
    assert!(st.ext_neg);
}

#[test]
fn missing_values() {
    for (flag, f) in [
        ("-p", Flag::Path),
        ("-bp", Flag::BackupPath),
        ("-arg-seperator", Flag::ArgSeparator),
        ("-seperator", Flag::Separator),
        ("-t", Flag::Time),
        ("-ext", Flag::Extension),
        ("-ext-neg", Flag::NegatedExtension),
    ] {
        let mut st = state();
        let a = args(&["prog", flag]);
        assert_eq!(apply_arg(&mut st, &a, 1, None), Err(ArgError::MissingValue(f)));
    }
}

#[test]
fn startup_modes() {
    assert_eq!(startup_mode(&args(&["prog"])), StartupMode::NoArguments);
    assert_eq!(startup_mode(&args(&["prog", "-HELP"])), StartupMode::Help);
    assert_eq!(startup_mode(&args(&["prog", "-h"])), StartupMode::Help);
    assert_eq!(startup_mode(&args(&["prog", "help", "-date"])), StartupMode::Help);
    assert_eq!(startup_mode(&args(&["prog", "-date", "help"])), StartupMode::Normal);
    assert_eq!(startup_mode(&args(&[])), StartupMode::Normal);
}

#[test]
fn parse_args_settings() {
    let a = args(&[
        "prog", "-p", "/mnt/b", "-bp", "nosep", "-t", "3d", "-ext", "rs", "-year",
    ]);
    let mut backup = "/home/u/backups//proj".to_string();
    let mut time_to_check = u64::MAX;
    let mut extension = Vec::new();
    let mut ext_neg = false;
    let mut folder = "/work/proj".to_string();
    let r = parse_args(&a, &mut backup, &mut time_to_check, &mut extension, &mut ext_neg, &mut folder);
    assert_eq!(r, Ok(ParseOutcome::Parsed(vec!["nosep".to_string()])));
    assert!(backup.starts_with("/mnt/b/"));
    let year: i32 = backup["/mnt/b/".len()..].parse().unwrap();
    assert!(year >= 2024);
    assert_eq!(time_to_check, 259_200);
    assert_eq!(extension, vec!["rs".to_string()]);
    assert!(!ext_neg);
    assert_eq!(folder, "/work/proj");
}

#[test]
fn parse_args_help_changes_nothing() {
    let a = args(&["prog", "-Help", "-p", "/x"]);
    let mut backup = "/b".to_string();
    let mut time_to_check = 5;
    let mut extension = vec!["a".to_string()];
    let mut ext_neg = true;
    let mut folder = "/f".to_string();
    let r = parse_args(&a, &mut backup, &mut time_to_check, &mut extension, &mut ext_neg, &mut folder);
    assert_eq!(r, Ok(ParseOutcome::Help));
    assert_eq!((backup.as_str(), time_to_check, ext_neg, folder.as_str()), ("/b", 5, true, "/f"));
    assert_eq!(extension, vec!["a".to_string()]);
}

#[test]
fn parse_args_errors() {
    let cases = [
        (vec!["prog", "-t"], ArgError::MissingValue(Flag::Time)),
        (vec!["prog", "-t", "5days"], ArgError::TimeNumber),
        (vec!["prog", "-t", "-3h"], ArgError::NegativeTime),
        (vec!["prog", "-ext"], ArgError::MissingValue(Flag::Extension)),
    ];
    for (a, e) in cases {
        let a = args(&a);
        let mut backup = "/b".to_string();
        let mut time_to_check = 5;
        let mut extension = Vec::new();
        let mut ext_neg = false;
        let mut folder = "/f".to_string();
        let r = parse_args(&a, &mut backup, &mut time_to_check, &mut extension, &mut ext_neg, &mut folder);
        assert_eq!(r, Err(ParseFailure { error: e, ignored: Vec::new() }));
    }
}

#[test]
fn parse_args_failure_keeps_ignored_paths() {
    let a = args(&["prog", "-p", "nosep", "-bp", "other", "-t", "x5h"]);
    let mut backup = "/b".to_string();
    let mut time_to_check = 5;
    let mut extension = Vec::new();
    let mut ext_neg = false;
    let mut folder = "/f".to_string();
    let r = parse_args(&a, &mut backup, &mut time_to_check, &mut extension, &mut ext_neg, &mut folder);
    assert_eq!(
        r,
        Err(ParseFailure {
            error: ArgError::TimeNumber,
            ignored: vec!["nosep".to_string(), "other".to_string()],
        })
    );
}

#[test]
fn parse_args_starts_in_utc() {
    let a = args(&["prog", "-zone", "-zoneLocal", "-zoneUTC", "-zone"]);
    let mut backup = "/b".to_string();
    let mut time_to_check = 5;
    let mut extension = Vec::new();
    let mut ext_neg = false;
    let mut folder = "/f".to_string();
    let r = parse_args(&a, &mut backup, &mut time_to_check, &mut extension, &mut ext_neg, &mut folder);
    if r.is_ok() {
        assert_eq!(backup, "/b/+00.00.00.+00.00.00");
    } else {
        assert_eq!(r.unwrap_err().error, ArgError::LocalTimeUnavailable);
    }
}

#[test]
fn parse_args_utc_zone() {
    let a = args(&["prog", "-zoneUTC", "-zone"]);
    let mut backup = "/b".to_string();
    let mut time_to_check = 5;
    let mut extension = Vec::new();
    let mut ext_neg = false;
    let mut folder = "/f".to_string();
    let r = parse_args(&a, &mut backup, &mut time_to_check, &mut extension, &mut ext_neg, &mut folder);
    assert_eq!(r, Ok(ParseOutcome::Parsed(Vec::new())));
    assert_eq!(backup, "/b/+00.00.00");
}

#[test]
fn law_duration_number_unit_on_values() {
    for (n, u, secs) in [(0u64, 's', 1u64), (24, 'd', 86400), (24, 'h', 3600), (1, 'm', 2_592_000), (3, 'y', 31_556_952)] {
        let v = format!("{}{}", n, u);
        assert_eq!(duration_of(&v), Ok(Some(n * secs)));
    }
}
