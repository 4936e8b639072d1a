use devflow::envfile::{parse_line, EnvFile, Line};

#[test]
fn files_round_trip_unchanged() {
    let content = "# secrets\nAPI_KEY=abc\n\nURL=http://x\n";
    let file = EnvFile::from_content(".env".to_string(), content);
    assert_eq!(file.path(), ".env");
    // A trailing newline closes the last line; rendering joins lines again.
    assert_eq!(file.render(), "# secrets\nAPI_KEY=abc\n\nURL=http://x");
    assert_eq!(
        file.entries(),
        vec![
            ("API_KEY".to_string(), "abc".to_string()),
            ("URL".to_string(), "http://x".to_string()),
        ]
    );
}

#[test]
fn upsert_replaces_in_place_and_appends_new_keys() {
    let mut file = EnvFile::from_content(".env".to_string(), "# head\nA=1\nB=2");
    file.upsert("A", "9");
    assert_eq!(file.render(), "# head\nA=9\nB=2");
    file.upsert("C", "3");
    assert_eq!(file.render(), "# head\nA=9\nB=2\nC=3");
}

#[test]
fn remove_drops_only_the_named_entry() {
    let mut file = EnvFile::from_content(".env".to_string(), "A=1\n# keep me\nB=2");
    assert!(file.remove("A"));
    assert_eq!(file.render(), "# keep me\nB=2");
    assert!(!file.remove("A"));
}

#[test]
fn lines_classify_like_the_file_format() {
    assert!(matches!(parse_line("# note"), Line::Comment(_)));
    assert!(matches!(parse_line("   # indented"), Line::Comment(_)));
    assert!(matches!(parse_line(""), Line::Blank));
    match parse_line(" KEY =value with spaces\r") {
        Line::Entry { key, value } => {
            assert_eq!(key, "KEY");
            // The value keeps its written form; only trailing returns go.
            assert_eq!(value, "value with spaces");
        }
        other => panic!("expected an entry, got {:?}", other),
    }
    match parse_line("no_equals") {
        Line::Entry { key, value } => {
            assert_eq!(key, "no_equals");
            assert_eq!(value, "");
        }
        other => panic!("expected an entry, got {:?}", other),
    }
}
