use backupr::select::{should_back_up, FileExtension};

fn exts(a: &[&str]) -> Vec<String> {
    a.iter().map(|s| s.to_string()).collect()
}

fn text(e: &str) -> FileExtension {
    FileExtension::Text(e.to_string())
}

#[test]
fn law_no_list_age_only_on_values() {
    let none = exts(&[]);
    assert!(should_back_up(&none, false, &text("rs"), 10, 0, 10));
    assert!(!should_back_up(&none, false, &text("rs"), 10, 1, 10));
    assert!(should_back_up(&none, true, &FileExtension::Missing, 3, 999, 10));
    assert!(!should_back_up(&none, false, &FileExtension::Unreadable, 11, 0, 10));
    assert!(should_back_up(&none, false, &text("rs"), 0, 0, u64::MAX));
}

#[test]
fn law_only_listed_extensions_on_values() {
    let list = exts(&["txt", "rs"]);
    assert!(should_back_up(&list, false, &text("rs"), 1, 0, 10));
    assert!(!should_back_up(&list, false, &text("md"), 1, 0, 10));
    assert!(!should_back_up(&list, false, &text("RS"), 1, 0, 10));
    assert!(!should_back_up(&list, false, &text("rs"), 10, 0, 10));
    assert!(!should_back_up(&list, false, &FileExtension::Unreadable, 1, 0, 10));
}

#[test]
fn law_negated_extension_left_out_on_values() {
    let list = exts(&["mp4"]);
    assert!(!should_back_up(&list, true, &text("mp4"), 1, 0, 10));
    assert!(should_back_up(&list, true, &text("mkv"), 1, 0, 10));
    assert!(should_back_up(&list, true, &FileExtension::Unreadable, 1, 0, 10));
    let two = exts(&["mp4", "mkv"]);
    assert!(should_back_up(&two, true, &text("mp4"), 1, 0, 10));
}

#[test]
fn law_files_without_extension_on_values() {
    let with_marker = exts(&["txt", "-No-Extension"]);
    let without = exts(&["txt"]);
    assert!(should_back_up(&with_marker, false, &FileExtension::Missing, 1, 0, 10));
    assert!(should_back_up(&with_marker, true, &FileExtension::Missing, 1, 0, 10));
    assert!(!should_back_up(&without, false, &FileExtension::Missing, 1, 0, 10));
    assert!(!should_back_up(&without, true, &FileExtension::Missing, 1, 0, 10));
    assert!(!should_back_up(&with_marker, false, &FileExtension::Missing, 20, 0, 10));
}
