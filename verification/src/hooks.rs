//! Shell hooks: the per-shell snippets that make a shell evaluate this
//! program's export output at every prompt. Each hook splices the program's
//! own path into a fixed template.

use vstd::prelude::*;
use vstd::string::*;

use crate::errors::EnvyError;
use crate::text::str_eq_str;

verus! {

/// The bash hook up to the program path.
pub const BASH_HOOK_PREFIX: &'static str = " \n_envy_hook() {\n    local previous_exit_status=$?;\n    eval \"$(\"";

/// The bash hook after the program path.
pub const BASH_HOOK_SUFFIX: &'static str = "\" export bash)\";\n    return $previous_exit_status;\n  };\n  if ! [[ \"$PROMPT_COMMAND\" =~ _envy_hook ]]; then\n    PROMPT_COMMAND=\"_envy_hook;$PROMPT_COMMAND\"\n  fi\n";

/// The fish hook up to the program path.
pub const FISH_HOOK_PREFIX: &'static str = "\nfunction __direnv_export_eval --on-event fish_prompt;\n\teval (\"";

/// The fish hook after the program path.
pub const FISH_HOOK_SUFFIX: &'static str = "\" export fish);\nend\n";

/// The zsh hook up to the program path.
pub const ZSH_HOOK_PREFIX: &'static str = " \n_envy_hook() {\n    eval \"$(\"";

/// The zsh hook after the program path.
pub const ZSH_HOOK_SUFFIX: &'static str = "\" export zsh)\";\n}\ntypeset -ag precmd_functions;\nif [[ -z ${precmd_functions[(r)_envy_hook]} ]]; then\nprecmd_functions+=_envy_hook;\nfi\n";

/// The bash dialect.
pub struct Bash;

/// The fish dialect.
pub struct Fish;

/// The zsh dialect.
pub struct Zsh;

impl Bash {
    /// The bash hook, with the program found at `self_path`.
    pub fn hook(self_path: &str) -> (r: String)
        ensures
            r@ == BASH_HOOK_PREFIX@ + self_path@ + BASH_HOOK_SUFFIX@,
    {
        String::from_str(BASH_HOOK_PREFIX).concat(self_path).concat(BASH_HOOK_SUFFIX)
    }
}

impl Fish {
    /// The fish hook, with the program found at `self_path`.
    pub fn hook(self_path: &str) -> (r: String)
        ensures
            r@ == FISH_HOOK_PREFIX@ + self_path@ + FISH_HOOK_SUFFIX@,
    {
        String::from_str(FISH_HOOK_PREFIX).concat(self_path).concat(FISH_HOOK_SUFFIX)
    }
}

impl Zsh {
    /// The zsh hook, with the program found at `self_path`.
    pub fn hook(self_path: &str) -> (r: String)
        ensures
            r@ == ZSH_HOOK_PREFIX@ + self_path@ + ZSH_HOOK_SUFFIX@,
    {
        String::from_str(ZSH_HOOK_PREFIX).concat(self_path).concat(ZSH_HOOK_SUFFIX)
    }
}

/// The hook for the named shell, with the program found at `self_path`; an
/// unknown shell name is refused.
pub fn hook_for_shell(shell: &str, self_path: &str) -> (r: Result<String, EnvyError>)
    ensures
        shell@ == "bash"@ ==> (r matches Ok(h) && h@ == BASH_HOOK_PREFIX@ + self_path@
            + BASH_HOOK_SUFFIX@),
        shell@ == "fish"@ ==> (r matches Ok(h) && h@ == FISH_HOOK_PREFIX@ + self_path@
            + FISH_HOOK_SUFFIX@),
        shell@ == "zsh"@ ==> (r matches Ok(h) && h@ == ZSH_HOOK_PREFIX@ + self_path@
            + ZSH_HOOK_SUFFIX@),
        !(shell@ == "bash"@ || shell@ == "fish"@ || shell@ == "zsh"@) ==> (r matches Err(
            EnvyError::UnsupportedShell(s),
        ) && s@ == shell@),
{
    proof {
        reveal_strlit("bash");
        reveal_strlit("zsh");
        reveal_strlit("fish");
        assert("bash"@[0] == 'b' && "zsh"@[0] == 'z' && "fish"@[0] == 'f');
        assert("bash"@ != "fish"@ && "bash"@ != "zsh"@ && "zsh"@ != "fish"@);
    }
    if str_eq_str(shell, "bash") {
        Ok(Bash::hook(self_path))
    } else if str_eq_str(shell, "fish") {
        Ok(Fish::hook(self_path))
    } else if str_eq_str(shell, "zsh") {
        Ok(Zsh::hook(self_path))
    } else {
        Err(EnvyError::UnsupportedShell(shell.to_owned()))
    }
}

} // verus!
