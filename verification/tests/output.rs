use envy::errors::EnvyError;
use envy::resolve::{
    export_bash_zsh, export_fish, export_json, export_lines, find_output, resolve_vars,
    show_lines, LoadedFile,
};
use envy::settings::{EnvySettings, PathConfig};

fn vars(vs: Vec<&str>) -> Vec<String> {
    vs.into_iter().map(|s| s.to_string()).collect()
}

#[test]
fn test_export_bash_zsh_lines() {
    let out = export_bash_zsh(&vars(vec!["A=1", "export B=2"]));
    assert_eq!(out, vec!["export A=1".to_string(), "export B=2".to_string()]);
}

#[test]
fn test_export_fish_lines() {
    let out = export_fish(&vars(vec!["A=1", "# comment", "export B=two words"]));
    assert_eq!(
        out,
        vec![
            "set -gx A 1".to_string(),
            "set -gx B two words".to_string()
        ]
    );
}

/// The JSON rendering is one compact object whose members are the parsed
/// variables, with edge-case values kept verbatim.
#[test]
fn test_export_json_members() {
    let list = vars(vec![
        "SIMPLE_VAR=value",
        "VAR_WITH_SPACES=value with spaces",
        "VAR_WITH_QUOTES=\"quoted value\"",
        "VAR_WITH_EQUALS=key=value=more",
        "EMPTY_VAR=",
        "# a comment contributes nothing",
    ]);
    let text = export_json(&list);
    let json: serde_json::Value = serde_json::from_str(&text).expect("Invalid JSON output");
    let obj = json.as_object().unwrap();
    assert_eq!(obj.get("SIMPLE_VAR").unwrap().as_str().unwrap(), "value");
    assert_eq!(
        obj.get("VAR_WITH_SPACES").unwrap().as_str().unwrap(),
        "value with spaces"
    );
    assert_eq!(
        obj.get("VAR_WITH_QUOTES").unwrap().as_str().unwrap(),
        "\"quoted value\""
    );
    assert_eq!(
        obj.get("VAR_WITH_EQUALS").unwrap().as_str().unwrap(),
        "key=value=more"
    );
    assert_eq!(obj.get("EMPTY_VAR").unwrap().as_str().unwrap(), "");
    assert_eq!(obj.len(), 5);
    assert!(!text.contains('\n'));
}

#[test]
fn test_export_json_empty() {
    let text = export_json(&Vec::new());
    assert_eq!(text, "{}");
    let json: serde_json::Value = serde_json::from_str(&text).unwrap();
    assert!(json.as_object().unwrap().is_empty());
}

/// A later line for a key overwrites an earlier one in the JSON object.
#[test]
fn test_export_json_last_wins() {
    let text = export_json(&vars(vec!["K=a", "export K=b"]));
    let json: serde_json::Value = serde_json::from_str(&text).unwrap();
    assert_eq!(json.as_object().unwrap().get("K").unwrap().as_str().unwrap(), "b");
}

#[test]
fn test_export_lines_dispatch() {
    let list = vars(vec!["A=1"]);
    assert_eq!(
        export_lines("bash", &list).unwrap(),
        vec!["export A=1".to_string()]
    );
    assert_eq!(
        export_lines("zsh", &list).unwrap(),
        vec!["export A=1".to_string()]
    );
    assert_eq!(
        export_lines("fish", &list).unwrap(),
        vec!["set -gx A 1".to_string()]
    );
    let json_lines = export_lines("json", &list).unwrap();
    assert_eq!(json_lines.len(), 1);
    assert!(json_lines[0].contains("\"A\""));
}

#[test]
fn test_export_lines_unsupported_shell() {
    let err = export_lines("unsupported_shell", &Vec::new()).unwrap_err();
    match &err {
        EnvyError::UnsupportedShell(name) => assert_eq!(name, "unsupported_shell"),
        _ => panic!("expected an unsupported-shell failure"),
    }
    assert_eq!(
        err.message(),
        "unsupported_shell is currently not supported"
    );
}

/// A directory with no registered files and no matching pattern resolves to
/// an empty result, not an error.
#[test]
fn test_resolve_empty_directory() {
    let settings = EnvySettings::empty();
    let resolved = resolve_vars(&settings, "/nowhere/special", &Vec::new());
    assert_eq!(resolved, Vec::<String>::new());
    let rendered = export_lines("json", &resolved).unwrap();
    assert_eq!(rendered, vec!["{}".to_string()]);
}

/// Pattern variables come first, then each file's variables in order.
#[test]
fn test_resolve_merge_order() {
    let settings = EnvySettings {
        envs: None,
        paths: Some(vec![PathConfig {
            pattern: "^/proj".to_string(),
            env: vars(vec!["FROM_PATTERN=1"]),
        }]),
    };
    let texts = vars(vec![
        "FILE_ONE=a\n# note\nSHARED=one",
        "FILE_TWO=b\nSHARED=two",
    ]);
    let resolved = resolve_vars(&settings, "/proj/x", &texts);
    assert_eq!(
        resolved,
        vars(vec![
            "FROM_PATTERN=1",
            "FILE_ONE=a",
            "SHARED=one",
            "FILE_TWO=b",
            "SHARED=two"
        ])
    );
    // In the keyed JSON view, the later file wins for the shared key.
    let text = export_json(&resolved);
    let json: serde_json::Value = serde_json::from_str(&text).unwrap();
    assert_eq!(
        json.as_object().unwrap().get("SHARED").unwrap().as_str().unwrap(),
        "two"
    );
}

/// The environment-definition scenario: two variables around a comment line
/// resolve to exactly those variables; the comment appears nowhere.
#[test]
fn test_resolve_env_file_scenario() {
    let settings = EnvySettings::empty();
    let texts = vars(vec![
        "TEST_VAR=test_value\n# This is a comment\nANOTHER_VAR=another_value",
    ]);
    let resolved = resolve_vars(&settings, "/anywhere", &texts);
    assert_eq!(
        resolved,
        vars(vec!["TEST_VAR=test_value", "ANOTHER_VAR=another_value"])
    );
    let rendered = export_lines("bash", &resolved).unwrap();
    assert_eq!(
        rendered,
        vars(vec![
            "export TEST_VAR=test_value",
            "export ANOTHER_VAR=another_value"
        ])
    );
    assert!(!rendered.iter().any(|l| l.contains("comment")));
}

#[test]
fn test_show_lines_report() {
    let settings = EnvySettings::empty();
    let files = vec![LoadedFile {
        path: "/p/.env".to_string(),
        text: "A=1\n#c\nB=2".to_string(),
    }];
    let report = show_lines(&settings, "/p", &files);
    assert_eq!(
        report,
        vars(vec!["Loaded from `/p/.env`:", "A=1", "B=2", ""])
    );
}

#[test]
fn test_show_lines_no_match_notice() {
    let settings = EnvySettings::empty();
    let report = show_lines(&settings, "/p", &Vec::new());
    assert_eq!(
        report,
        vars(vec!["/p: envy found no pattern matches for this directory"])
    );
}

#[test]
fn test_find_output() {
    assert_eq!(
        find_output("PATH", &Some("/usr/bin:/bin".to_string())),
        "/usr/bin:/bin"
    );
    assert_eq!(
        find_output("DEFINITELY_DOES_NOT_EXIST_12345", &None),
        "Variable DEFINITELY_DOES_NOT_EXIST_12345 not found"
    );
}
