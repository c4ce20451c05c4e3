use record::token_file::read_entries;

#[test]
fn entries_skip_lines_without_colon() {
    let es = read_entries("Discord:tok\nnocolon\nTest:x:y\n");
    assert_eq!(
        es,
        vec![
            ("Discord".to_string(), "tok".to_string()),
            ("Test".to_string(), "x:y".to_string())
        ]
    );
}

#[test]
fn entries_of_empty_file() {
    assert!(read_entries("").is_empty());
    assert!(read_entries("\n\n").is_empty());
}

#[test]
fn entries_strip_carriage_returns() {
    assert_eq!(
        read_entries("Discord:a\r\nDiscord:b"),
        vec![
            ("Discord".to_string(), "a".to_string()),
            ("Discord".to_string(), "b".to_string())
        ]
    );
}
