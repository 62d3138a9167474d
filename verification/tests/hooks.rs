use envy::errors::EnvyError;
use envy::hooks::{hook_for_shell, Bash, Fish, Zsh};

#[test]
fn test_hook_bash() {
    let hook = Bash::hook("/usr/local/bin/envy");
    assert!(hook.contains("_envy_hook"));
    assert!(hook.contains("PROMPT_COMMAND"));
    assert!(hook.contains("export bash"));
    assert!(hook.contains("\"/usr/local/bin/envy\""));
}

#[test]
fn test_hook_fish() {
    let hook = Fish::hook("/usr/local/bin/envy");
    assert!(hook.contains("--on-event fish_prompt"));
    assert!(hook.contains("export fish"));
    assert!(hook.contains("(\"/usr/local/bin/envy\" export fish)"));
}

#[test]
fn test_hook_zsh() {
    let hook = Zsh::hook("/usr/local/bin/envy");
    assert!(hook.contains("precmd_functions"));
    assert!(hook.contains("export zsh"));
}

#[test]
fn test_hook_dispatch() {
    assert_eq!(
        hook_for_shell("bash", "/bin/envy").unwrap(),
        Bash::hook("/bin/envy")
    );
    assert_eq!(
        hook_for_shell("fish", "/bin/envy").unwrap(),
        Fish::hook("/bin/envy")
    );
    assert_eq!(
        hook_for_shell("zsh", "/bin/envy").unwrap(),
        Zsh::hook("/bin/envy")
    );
}

#[test]
fn test_hook_unsupported_shell() {
    let err = hook_for_shell("unsupported_shell", "/bin/envy").unwrap_err();
    match &err {
        EnvyError::UnsupportedShell(name) => assert_eq!(name, "unsupported_shell"),
        _ => panic!("expected an unsupported-shell failure"),
    }
    assert!(err.message().contains("currently not supported"));
}
