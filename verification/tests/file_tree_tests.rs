use rustagent::file_tree::{display_name, order_entries, FileEntry};
use rustagent::platform::HostOs;

#[test]
fn display_name_uses_last_component() {
    assert_eq!(display_name(HostOs::Linux, "/home/user/projects"), "projects");
    assert_eq!(display_name(HostOs::Linux, "/"), "/");
}

#[test]
fn display_name_follows_path_rules() {
    assert_eq!(display_name(HostOs::Linux, "/home/user/projects/"), "projects");
    assert_eq!(display_name(HostOs::Linux, "/home/user/projects/."), "projects");
    assert_eq!(display_name(HostOs::Linux, "a/.."), "a/..");
    assert_eq!(display_name(HostOs::Linux, "."), ".");
    assert_eq!(display_name(HostOs::Linux, ""), "");
    assert_eq!(display_name(HostOs::Linux, "docs"), "docs");
    assert_eq!(display_name(HostOs::Windows, "C:\\Users\\me\\code"), "code");
    assert_eq!(display_name(HostOs::Windows, "C:\\"), "C:\\");
    assert_eq!(display_name(HostOs::Windows, "D:"), "D:");
    assert_eq!(display_name(HostOs::Windows, "D:/work/"), "work");
    assert_eq!(display_name(HostOs::Linux, "C:\\Users\\me\\code"), "C:\\Users\\me\\code");
}

fn entry(name: &str, is_dir: bool) -> FileEntry {
    FileEntry {
        name: name.to_string(),
        path: format!("/x/{name}"),
        is_dir,
    }
}

#[test]
fn order_entries_puts_directories_first_then_files() {
    let entries = vec![
        entry("beta_file.txt", false),
        entry("zeta_dir", true),
        entry("alpha_file.txt", false),
        entry("alpha_dir", true),
    ];
    let ordered = order_entries(entries);
    let names: Vec<&str> = ordered.iter().map(|e| e.name.as_str()).collect();
    assert_eq!(names, vec!["alpha_dir", "zeta_dir", "alpha_file.txt", "beta_file.txt"]);
    assert!(ordered[0].is_dir);
    assert!(ordered[1].is_dir);
    assert!(!ordered[2].is_dir);
    assert!(!ordered[3].is_dir);
    assert_eq!(ordered[0].path, "/x/alpha_dir");
}

#[test]
fn order_entries_ignores_case_and_is_stable() {
    let entries = vec![
        entry("b", false),
        entry("README", false),
        entry("a", false),
        entry("readme", false),
        entry("A", false),
    ];
    let ordered = order_entries(entries);
    let names: Vec<&str> = ordered.iter().map(|e| e.name.as_str()).collect();
    assert_eq!(names, vec!["a", "A", "b", "README", "readme"]);
}

#[test]
fn order_entries_of_nothing_is_nothing() {
    assert!(order_entries(Vec::new()).is_empty());
}

#[test]
fn display_name_follows_windows_prefixes() {
    assert_eq!(display_name(HostOs::Windows, "\\\\server\\share"), "\\\\server\\share");
    assert_eq!(display_name(HostOs::Windows, "//server/share/"), "//server/share/");
    assert_eq!(display_name(HostOs::Windows, "\\\\server\\share\\dir"), "dir");
    assert_eq!(display_name(HostOs::Windows, "\\\\server"), "server");
    assert_eq!(display_name(HostOs::Windows, "C:foo"), "foo");
    assert_eq!(display_name(HostOs::Windows, "\\\\.\\COM1"), "\\\\.\\COM1");
    assert_eq!(display_name(HostOs::Windows, "\\\\.\\pipe\\name"), "name");
    assert_eq!(display_name(HostOs::Windows, "\\\\?\\C:\\"), "\\\\?\\C:\\");
    assert_eq!(display_name(HostOs::Windows, "\\\\?\\C:\\x"), "x");
    assert_eq!(display_name(HostOs::Windows, "\\\\?\\UNC\\server\\share"), "\\\\?\\UNC\\server\\share");
    assert_eq!(display_name(HostOs::Windows, "\\\\?\\UNC\\server\\share\\d"), "d");
    assert_eq!(display_name(HostOs::Windows, "\\\\?\\pics/cats"), "\\\\?\\pics/cats");
    assert_eq!(display_name(HostOs::Windows, "\\\\?\\pics\\cats/dogs"), "cats/dogs");
    assert_eq!(display_name(HostOs::Windows, "\\\\?\\C:\\a\\."), "\\\\?\\C:\\a\\.");
}
