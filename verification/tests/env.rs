use devflow::envtext::{env_line, parse_env_content, split_lines, trim, unquote};

#[test]
fn test_parse_env() {
    let content = r#"
# This is a comment
API_KEY=secret123
DATABASE_URL="postgres://localhost/db"
EMPTY=
QUOTED='single quoted'
"#;
    let vars = parse_env_content(content);
    assert_eq!(vars.len(), 4);
    assert_eq!(vars[0], ("API_KEY".to_string(), "secret123".to_string()));
    assert_eq!(
        vars[1],
        ("DATABASE_URL".to_string(), "postgres://localhost/db".to_string())
    );
}

#[test]
fn parse_env_last_definition_wins() {
    let vars = parse_env_content("A=1\nB=2\nA=3\n");
    assert_eq!(vars, vec![
        ("A".to_string(), "3".to_string()),
        ("B".to_string(), "2".to_string()),
    ]);
}

#[test]
fn parse_env_orders_by_key() {
    let vars = parse_env_content("ZULU=1\nALPHA=2\nMIKE=3");
    assert_eq!(vars[0].0, "ALPHA");
    assert_eq!(vars[1].0, "MIKE");
    assert_eq!(vars[2].0, "ZULU");
}

#[test]
fn parse_env_skips_junk_lines() {
    let vars = parse_env_content("  # indented comment\n\nnot a pair\n=value\nKEY = spaced \n");
    assert_eq!(vars, vec![("KEY".to_string(), "spaced".to_string())]);
}

#[test]
fn env_line_quotes_and_trims() {
    assert_eq!(
        env_line("  NAME = \"v\"  "),
        Some(("NAME".to_string(), "v".to_string()))
    );
    assert_eq!(env_line("# comment"), None);
    assert_eq!(env_line(""), None);
    assert_eq!(env_line("no equals sign"), None);
}

#[test]
fn split_lines_keeps_inner_blanks() {
    let lines = split_lines("a\n\nb\n");
    assert_eq!(lines, vec!["a".to_string(), "".to_string(), "b".to_string()]);
    assert_eq!(split_lines(""), Vec::<String>::new());
}

#[test]
fn trim_and_unquote_behave() {
    assert_eq!(trim("  x  "), "x");
    assert_eq!(trim("\t\r\n"), "");
    assert_eq!(unquote("'a'"), "a");
    assert_eq!(unquote("\"a\""), "a");
    assert_eq!(unquote("\"a'"), "\"a'");
    assert_eq!(unquote("\""), "\"");
}

#[test]
fn requirements_check_reports_each_fault_in_order() {
    let entries = vec![
        ("API_KEY".to_string(), "set".to_string()),
        ("EMPTY_ONE".to_string(), "".to_string()),
    ];
    let required = vec![
        "API_KEY".to_string(),
        "EMPTY_ONE".to_string(),
        "ABSENT".to_string(),
    ];
    let optional = vec!["API_KEY".to_string(), "NICE_TO_HAVE".to_string()];
    let report = devflow::envtext::check_env(&entries, &required, &optional);
    assert_eq!(report.missing_required, vec!["ABSENT".to_string()]);
    assert_eq!(report.empty_required, vec!["EMPTY_ONE".to_string()]);
    assert_eq!(report.missing_optional, vec!["NICE_TO_HAVE".to_string()]);
    assert!(!report.passes());

    let clean = devflow::envtext::check_env(&entries, &vec!["API_KEY".to_string()], &vec![]);
    assert!(clean.passes());
}
