use envy::parser::{env_lines_from_text, split_env_var};

/// An `export ` prefix is stripped and changes nothing else.
#[test]
fn test_split_env_var_export_prefix() {
    let bare = split_env_var("KEY=VALUE");
    let prefixed = split_env_var("export KEY=VALUE");
    assert_eq!(bare, Some(("KEY".to_string(), "VALUE".to_string())));
    assert_eq!(prefixed, bare);
}

/// Key and value are trimmed; the split happens at the first `=` only.
#[test]
fn test_split_env_var_trims_and_splits_once() {
    assert_eq!(
        split_env_var("  KEY = some value  "),
        Some(("KEY".to_string(), "some value".to_string()))
    );
    assert_eq!(
        split_env_var("A=b=c"),
        Some(("A".to_string(), "b=c".to_string()))
    );
    assert_eq!(
        split_env_var("QUOTED=\"kept verbatim\""),
        Some(("QUOTED".to_string(), "\"kept verbatim\"".to_string()))
    );
    assert_eq!(
        split_env_var("EMPTY="),
        Some(("EMPTY".to_string(), "".to_string()))
    );
}

/// Blank lines, comment lines, and lines without `=` parse to nothing.
#[test]
fn test_split_env_var_yields_none() {
    assert_eq!(split_env_var(""), None);
    assert_eq!(split_env_var("   "), None);
    assert_eq!(split_env_var("# A=comment"), None);
    assert_eq!(split_env_var("  # indented comment"), None);
    assert_eq!(split_env_var("no equals here"), None);
    assert_eq!(split_env_var("export NOEQUALS"), None);
}

/// Comment lines are dropped by the file reader; other lines stay verbatim.
#[test]
fn test_env_lines_from_text_drops_comments() {
    let lines = env_lines_from_text(
        "TEST_VAR=test_value\n# This is a comment\nANOTHER_VAR=another_value",
    );
    assert_eq!(
        lines,
        vec![
            "TEST_VAR=test_value".to_string(),
            "ANOTHER_VAR=another_value".to_string()
        ]
    );
}

/// Blank lines are kept verbatim and order is preserved.
#[test]
fn test_env_lines_from_text_keeps_order_and_blanks() {
    let lines = env_lines_from_text("B=2\n\nA=1\n");
    assert_eq!(
        lines,
        vec!["B=2".to_string(), "".to_string(), "A=1".to_string()]
    );
}

/// A carriage-return line ending is handled as `str::lines` handles it.
#[test]
fn test_env_lines_from_text_crlf() {
    let lines = env_lines_from_text("A=1\r\n#c\r\nB=2");
    assert_eq!(lines, vec!["A=1".to_string(), "B=2".to_string()]);
}
