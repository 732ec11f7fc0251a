use backupr::help::help_text;

#[test]
fn help_shows_the_default_directory() {
    let empty = help_text(&String::new());
    let shown = help_text(&"/home/u/backups//proj".to_string());
    assert!(shown.starts_with("\n    Backupr:\n"));
    assert!(shown.contains("Defaults to (OS Home Dir)/backups. or in your case, (/home/u/backups//proj)"));
    assert_eq!(shown, empty.replacen("()", "(/home/u/backups//proj)", 1));
    assert!(shown.contains("Default is \".\""));
    assert!(shown.ends_with("to change between args."));
}
