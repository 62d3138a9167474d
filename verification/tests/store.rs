use envy::settings::{EnvySettings, PathConfig};

/// Serializes an allow-list the way the durable store lays it out: an
/// `envs` array of paths and a `paths` array of pattern/env tables.
fn settings_to_table(settings: &EnvySettings) -> toml::Table {
    let mut root = toml::Table::new();
    if let Some(envs) = &settings.envs {
        let items: Vec<toml::Value> = envs
            .iter()
            .map(|e| toml::Value::String(e.clone()))
            .collect();
        root.insert("envs".to_string(), toml::Value::Array(items));
    }
    if let Some(paths) = &settings.paths {
        let mut rules: Vec<toml::Value> = Vec::new();
        for p in paths {
            let mut entry = toml::Table::new();
            entry.insert(
                "pattern".to_string(),
                toml::Value::String(p.pattern.clone()),
            );
            let env: Vec<toml::Value> = p
                .env
                .iter()
                .map(|e| toml::Value::String(e.clone()))
                .collect();
            entry.insert("env".to_string(), toml::Value::Array(env));
            rules.push(toml::Value::Table(entry));
        }
        root.insert("paths".to_string(), toml::Value::Array(rules));
    }
    root
}

fn table_to_settings(root: &toml::Table) -> EnvySettings {
    let envs = root.get("envs").map(|v| {
        v.as_array()
            .unwrap()
            .iter()
            .map(|e| e.as_str().unwrap().to_string())
            .collect::<Vec<String>>()
    });
    let paths = root.get("paths").map(|v| {
        v.as_array()
            .unwrap()
            .iter()
            .map(|entry| {
                let t = entry.as_table().unwrap();
                PathConfig {
                    pattern: t.get("pattern").unwrap().as_str().unwrap().to_string(),
                    env: t
                        .get("env")
                        .unwrap()
                        .as_array()
                        .unwrap()
                        .iter()
                        .map(|e| e.as_str().unwrap().to_string())
                        .collect(),
                }
            })
            .collect::<Vec<PathConfig>>()
    });
    EnvySettings { envs, paths }
}

/// Saving an allow-list and loading it back reproduces an equivalent one:
/// the same file set and the same pattern/variable pairs.
#[test]
fn test_allowlist_round_trip() {
    let mut settings = EnvySettings::empty();
    settings.add_env("/home/u/proj/.env".to_string());
    settings.add_env("/home/u/other/.envrc".to_string());
    settings.paths = Some(vec![
        PathConfig {
            pattern: "^/tmp".to_string(),
            env: vec!["A=1".to_string(), "B=two words".to_string()],
        },
        PathConfig {
            pattern: "proj$".to_string(),
            env: vec![],
        },
    ]);

    let text = toml::to_string(&settings_to_table(&settings)).expect("serialize failed");
    let parsed: toml::Table = toml::from_str(&text).expect("parse failed");
    let loaded = table_to_settings(&parsed);

    assert_eq!(loaded.envs, settings.envs);
    assert!(loaded.patterns_compile());
    let loaded_paths = loaded.paths.unwrap();
    let original_paths = settings.paths.unwrap();
    assert_eq!(loaded_paths.len(), original_paths.len());
    for (l, o) in loaded_paths.iter().zip(original_paths.iter()) {
        assert_eq!(l.pattern, o.pattern);
        assert_eq!(l.env, o.env);
    }
}

/// An absent backing file is an empty allow-list, and an empty allow-list
/// round-trips to empty collections.
#[test]
fn test_allowlist_round_trip_empty() {
    let settings = EnvySettings::empty();
    let text = toml::to_string(&settings_to_table(&settings)).expect("serialize failed");
    let parsed: toml::Table = toml::from_str(&text).expect("parse failed");
    let loaded = table_to_settings(&parsed);
    assert!(loaded.envs.is_none());
    assert!(loaded.paths.is_none());
}
