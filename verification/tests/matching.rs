use envy::settings::{EnvySettings, PathConfig};

fn rule(pattern: &str, env: Vec<&str>) -> PathConfig {
    PathConfig {
        pattern: pattern.to_string(),
        env: env.into_iter().map(|s| s.to_string()).collect(),
    }
}

/// The first matching rule wins when several match, in registration order.
#[test]
fn test_matching_patterns_first_match_wins() {
    let settings = EnvySettings {
        envs: None,
        paths: Some(vec![
            rule("^/never", vec!["N=0"]),
            rule("^/tmp", vec!["FIRST=1"]),
            rule("/tmp", vec!["SECOND=2"]),
        ]),
    };
    assert_eq!(
        settings.matching_patterns("/tmp/project"),
        Some(vec!["FIRST=1".to_string()])
    );
}

#[test]
fn test_matching_patterns_no_match() {
    let settings = EnvySettings {
        envs: None,
        paths: Some(vec![rule("^/somewhere/else", vec!["A=1"])]),
    };
    assert_eq!(settings.matching_patterns("/tmp/project"), None);
    let bare = EnvySettings::empty();
    assert_eq!(bare.matching_patterns("/tmp/project"), None);
}

/// An invalid pattern matches nothing and fails the compile check.
#[test]
fn test_invalid_pattern() {
    let settings = EnvySettings {
        envs: None,
        paths: Some(vec![rule("(unclosed", vec!["A=1"])]),
    };
    assert_eq!(settings.matching_patterns("(unclosed"), None);
    assert!(!settings.patterns_compile());
    let fine = EnvySettings {
        envs: None,
        paths: Some(vec![rule("^/tmp", vec!["A=1"])]),
    };
    assert!(fine.patterns_compile());
}

/// Registering the same canonical path twice keeps one entry.
#[test]
fn test_add_env_idempotent() {
    let mut settings = EnvySettings::empty();
    settings.add_env("/home/u/proj/.env".to_string());
    settings.add_env("/home/u/proj/.env".to_string());
    assert_eq!(
        settings.envs,
        Some(vec!["/home/u/proj/.env".to_string()])
    );
}

#[test]
fn test_remove_env() {
    let mut settings = EnvySettings::empty();
    settings.add_env("/a/.env".to_string());
    settings.add_env("/b/.env".to_string());
    settings.remove_env("/a/.env".to_string());
    assert_eq!(settings.envs, Some(vec!["/b/.env".to_string()]));
    settings.remove_env("/not/there/.env".to_string());
    assert_eq!(settings.envs, Some(vec!["/b/.env".to_string()]));
}

/// Only files whose parent directory is the directory or an ancestor of it
/// are active, in registration order.
#[test]
fn test_matching_env_files() {
    let mut settings = EnvySettings::empty();
    settings.add_env("/home/u/proj/.env".to_string());
    settings.add_env("/home/u/other/.env".to_string());
    settings.add_env("/home/u/.env".to_string());
    assert_eq!(
        settings.matching_env_files("/home/u/proj/sub"),
        vec!["/home/u/proj/.env".to_string(), "/home/u/.env".to_string()]
    );
    assert_eq!(
        settings.matching_env_files("/elsewhere"),
        Vec::<String>::new()
    );
}
