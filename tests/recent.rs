use markdown_editor::recent::{parse_recent_files, FileManager, MAX_RECENT_FILES};

#[test]
fn new_manager_has_no_recent_files() {
    assert!(FileManager::new().get_recent_files().is_empty());
}

#[test]
fn opened_file_moves_to_the_front_once() {
    let mut m = FileManager::new();
    m.add_recent_file("a.md".to_string());
    m.add_recent_file("b.md".to_string());
    m.add_recent_file("a.md".to_string());
    assert_eq!(m.get_recent_files(), &["a.md".to_string(), "b.md".to_string()]);
}

#[test]
fn list_keeps_the_ten_most_recent() {
    let mut m = FileManager::new();
    for i in 0..12 {
        m.add_recent_file(format!("{}.md", i));
    }
    let files = m.get_recent_files();
    assert_eq!(files.len(), MAX_RECENT_FILES);
    assert_eq!(files[0], "11.md");
    assert_eq!(files[9], "2.md");
}

#[test]
fn json_round_trip() {
    let mut m = FileManager::new();
    m.add_recent_file("/x/a.md".to_string());
    m.add_recent_file("/y/b.md".to_string());
    let json = m.recent_files_json().unwrap();
    assert_eq!(json, "[\n  \"/y/b.md\",\n  \"/x/a.md\"\n]");
    let back = parse_recent_files(&json).unwrap();
    let mut n = FileManager::new();
    n.replace_recent_files(back);
    assert_eq!(n.get_recent_files(), m.get_recent_files());
}

#[test]
fn malformed_json_is_rejected() {
    assert_eq!(parse_recent_files("{\"a\": 1}"), None);
    assert_eq!(parse_recent_files("not json"), None);
}
