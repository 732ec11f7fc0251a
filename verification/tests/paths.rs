use backupr::paths::{backup_parent, backup_target, default_backup_directory};

fn s(x: &str) -> String {
    x.to_string()
}

#[test]
fn default_directory_unix() {
    assert_eq!(
        default_backup_directory(&s("/home/u"), &s("/work/proj"), false),
        Some(s("/home/u/backups//proj"))
    );
    assert_eq!(default_backup_directory(&s("/home/u"), &s("proj"), false), None);
}

#[test]
fn default_directory_windows() {
    assert_eq!(
        default_backup_directory(&s("C:\\Users\\u"), &s("C:\\work\\proj"), true),
        Some(s("C:\\Users\\u\\backups\\proj"))
    );
    assert_eq!(default_backup_directory(&s("C:\\Users\\u"), &s("/work/proj"), true), None);
}

#[test]
fn law_default_backup_directory_on_values() {
    let home = s("/h");
    for name in ["x", "ünï", ""] {
        let cwd = format!("/a/b/{}", name);
        assert_eq!(
            default_backup_directory(&home, &cwd, false),
            Some(format!("/h/backups//{}", name))
        );
    }
}

#[test]
fn copy_targets() {
    assert_eq!(
        backup_target(&s("/b"), &s("/src"), &s("/src/a/é.txt")),
        Some(s("/b//a/é.txt"))
    );
    assert_eq!(backup_target(&s("/b"), &s("/src"), &s("/src")), Some(s("/b/")));
    assert_eq!(backup_target(&s("/b"), &s("/srcxx"), &s("/src")), None);
}

#[test]
fn copy_target_cut_inside_a_character() {
    assert_eq!(backup_target(&s("/b"), &s("é"), &s("aé")), None);
    assert_eq!(backup_target(&s("/b"), &s("é"), &s("éa")), Some(s("/b/a")));
    assert_eq!(backup_target(&s("/b"), &s("ab"), &s("ééx")), Some(s("/b/éx")));
    assert_eq!(backup_target(&s("/b"), &s("abc"), &s("ééx")), None);
}

#[test]
fn law_target_of_nested_file_on_values() {
    for (folder, rest) in [("/src", "/x/y.rs"), ("/日本", "/語/ファイル"), ("", "rel")] {
        let file = format!("{}{}", folder, rest);
        assert_eq!(
            backup_target(&s("/bk"), &s(folder), &file),
            Some(format!("/bk/{}", rest))
        );
    }
}

#[test]
fn parents_to_create() {
    assert_eq!(
        backup_parent(&s("/b"), &s("/src"), &s("/src/a/f.txt"), &s("f.txt")),
        Some(s("/b//a/"))
    );
    assert_eq!(backup_parent(&s("/b"), &s("/src"), &s("f"), &s("long_name")), None);
    assert_eq!(backup_parent(&s("/b"), &s("/src/a/f"), &s("/src/a/f"), &s("f")), None);
}

#[test]
fn law_parent_of_nested_file_on_values() {
    for (folder, mid, name) in [("/src", "/a/b/", "c.txt"), ("/é", "/ü/", "ß"), ("/s", "", "n")] {
        let file = format!("{}{}{}", folder, mid, name);
        assert_eq!(
            backup_parent(&s("/bk"), &s(folder), &file, &s(name)),
            Some(format!("/bk/{}", mid))
        );
    }
}

#[test]
fn copies_stay_inside_the_backup_directory() {
    let target = backup_target(&s("/home/u/backups/mc"), &s("/srv/mc"), &s("/srv/mc/sub/f.txt")).unwrap();
    assert_eq!(target, "/home/u/backups/mc//sub/f.txt");
    assert!(std::path::Path::new(&target).starts_with("/home/u/backups/mc"));
}
