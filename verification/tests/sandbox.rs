use envy::errors::EnvyError;
use envy::sandbox::{
    create_extraction_script, parse_env_output, process_script_output, ENV_END_MARKER,
    ENV_START_MARKER, SCRIPT_EPILOGUE, SCRIPT_PRELUDE,
};

#[test]
fn test_parse_env_output() {
    let output = "\nSome other output\n=== ENVY_ENV_START ===\nFOO=bar\nBAZ=qux with spaces\n=== ENVY_ENV_END ===\nMore output\n";

    let result = parse_env_output(output).unwrap();
    assert_eq!(result.len(), 2);
    assert_eq!(result.get("FOO"), Some("bar".to_string()));
    assert_eq!(result.get("BAZ"), Some("qux with spaces".to_string()));
}

/// Text outside the sentinel markers is ignored; nothing from it leaks in.
#[test]
fn test_parse_env_output_ignores_surroundings() {
    let output = "NOISE=before\n=== ENVY_ENV_START ===\nREAL=yes\n=== ENVY_ENV_END ===\nNOISE2=after\n";
    let result = parse_env_output(output).unwrap();
    assert_eq!(result.len(), 1);
    assert_eq!(result.get("REAL"), Some("yes".to_string()));
    assert_eq!(result.get("NOISE"), None);
    assert_eq!(result.get("NOISE2"), None);
}

/// A later line for a key overwrites an earlier one.
#[test]
fn test_parse_env_output_last_wins() {
    let output = "=== ENVY_ENV_START ===\nK=first\nK=second\n=== ENVY_ENV_END ===\n";
    let result = parse_env_output(output).unwrap();
    assert_eq!(result.len(), 1);
    assert_eq!(result.get("K"), Some("second".to_string()));
}

/// A successful run of a context file that exports one fresh variable
/// reports exactly that variable.
#[test]
fn test_process_script_output_success() {
    let stdout = "=== ENVY_ENV_START ===\nFOO=bar\n=== ENVY_ENV_END ===\n";
    let result = process_script_output(true, stdout, "").unwrap();
    assert_eq!(result.len(), 1);
    assert_eq!(result.get("FOO"), Some("bar".to_string()));
    assert_eq!(result.to_lines(), vec!["FOO=bar".to_string()]);
}

/// A failed run is a hard failure carrying the diagnostic text, with no
/// partial variables.
#[test]
fn test_process_script_output_failure() {
    let stdout = "=== ENVY_ENV_START ===\nPARTIAL=value\n=== ENVY_ENV_END ===\n";
    let result = process_script_output(false, stdout, "boom: line 3");
    match result {
        Err(EnvyError::ScriptExecutionError(diag)) => {
            assert_eq!(diag, "boom: line 3");
        }
        _ => panic!("expected a script execution failure"),
    }
    let err = process_script_output(false, stdout, "boom: line 3").unwrap_err();
    assert_eq!(err.message(), "Bash script execution failed: boom: line 3");
}

/// The wrapper script frames the diff between the markers and sources the
/// context file in the middle.
#[test]
fn test_create_extraction_script() {
    let script = create_extraction_script("/work/dir/.envrc");
    assert!(script.starts_with(SCRIPT_PRELUDE));
    assert!(script.ends_with(SCRIPT_EPILOGUE));
    assert!(script.contains("source \"/work/dir/.envrc\""));
    assert!(script.contains(ENV_START_MARKER));
    assert!(script.contains(ENV_END_MARKER));
    assert!(script.contains("PATH_add()"));
    assert!(script.contains("initial_env_file=$(mktemp)"));
    assert!(script.contains("rm -f \"$initial_env_file\""));
}
