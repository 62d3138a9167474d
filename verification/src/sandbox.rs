//! The script sandbox: builds the wrapper script that runs a shell context
//! file and frames its environment changes between sentinel markers, and
//! parses the framed output back into a variable mapping.
//!
//! Running the subprocess itself is left to the caller; this module owns the
//! protocol: what is sent, and what every possible answer means.

use vstd::prelude::*;
use vstd::string::*;

use crate::envmap::EnvMap;
use crate::errors::EnvyError;
use crate::text::{find_c, find_char, lines_from_text, lines_spec, trim_of, trim_spec};

verus! {

/// The sentinel line that opens the variable block on standard output.
pub const ENV_START_MARKER: &'static str = "=== ENVY_ENV_START ===";

/// The sentinel line that closes the variable block on standard output.
pub const ENV_END_MARKER: &'static str = "=== ENVY_ENV_END ===";

/// What the wrapper script runs before sourcing the context file: a small
/// stdlib of convenience functions, and a snapshot of the environment into a
/// scratch file.
pub const SCRIPT_PRELUDE: &'static str = "
# Stdlib functions offered to context files (simplified versions)
PATH_add() {
    if [[ \":$PATH:\" != *\":$1:\"* ]]; then
        export PATH=\"$1:$PATH\"
    fi
}

path_add() {
    local var_name=\"$1\"
    local new_path=\"$2\"
    local current_value
    current_value=$(eval echo \\$$var_name)
    if [[ \":$current_value:\" != *\":$new_path:\"* ]]; then
        export \"$var_name\"=\"$new_path:$current_value\"
    fi
}

dotenv() {
    local env_file=\"${1:-.env}\"
    if [[ -f \"$env_file\" ]]; then
        set -o allexport
        source \"$env_file\"
        set +o allexport
    fi
}

dotenv_if_exists() {
    local env_file=\"${1:-.env}\"
    if [[ -f \"$env_file\" ]]; then
        dotenv \"$env_file\"
    fi
}

expand_path() {
    echo \"$(cd \"$(dirname \"$1\")\" && pwd)/$(basename \"$1\")\"
}

has() {
    command -v \"$1\" >/dev/null 2>&1
}

find_up() {
    local file=\"$1\"
    local dir=\"$PWD\"
    while [[ \"$dir\" != \"/\" ]]; do
        if [[ -f \"$dir/$file\" ]]; then
            echo \"$dir/$file\"
            return 0
        fi
        dir=$(dirname \"$dir\")
    done
    return 1
}

source_up() {
    local envrc_file
    envrc_file=$(find_up .envrc)
    if [[ -n \"$envrc_file\" && \"$envrc_file\" != \"$PWD/.envrc\" ]]; then
        source \"$envrc_file\"
    fi
}

source_env() {
    if [[ -f \"$1\" ]]; then
        source \"$1\"
    fi
}

# Layout functions (basic versions)
layout() {
    case \"$1\" in
        python|python3)
            if has python3; then
                export VIRTUAL_ENV=\"$PWD/.venv\"
                export PATH=\"$VIRTUAL_ENV/bin:$PATH\"
            fi
            ;;
        node|nodejs)
            if [[ -d node_modules/.bin ]]; then
                PATH_add node_modules/.bin
            fi
            ;;
        go)
            if [[ -f go.mod ]]; then
                export GOPATH=\"$PWD/.go\"
                PATH_add \"$GOPATH/bin\"
            fi
            ;;
    esac
}

use() {
    # Simplified version - a fuller one would handle version managers
    case \"$1\" in
        python|python3)
            layout python3
            ;;
        node|nodejs)
            layout node
            ;;
        go)
            layout go
            ;;
    esac
}

# Store initial environment in a temporary file
initial_env_file=$(mktemp)
env > \"$initial_env_file\"

# Source the context file
source \"";

/// What the wrapper script runs after sourcing the context file: the framed
/// dump of every variable that is new or changed against the snapshot, and
/// the removal of the scratch file.
pub const SCRIPT_EPILOGUE: &'static str = "\"

# Output environment variables that changed
echo \"=== ENVY_ENV_START ===\"
while IFS='=' read -r key value; do
    # Report the variable when it was absent before or held another value
    if ! grep -q \"^$key=\" \"$initial_env_file\" || [ \"$(grep \"^$key=\" \"$initial_env_file\" | cut -d'=' -f2-)\" != \"$value\" ]; then
        printf '%s=%s\\n' \"$key\" \"$value\"
    fi
done < <(env)
echo \"=== ENVY_ENV_END ===\"

# Clean up
rm -f \"$initial_env_file\"
";

/// Builds the wrapper script that snapshots the environment, sources the
/// context file at `envrc_path`, and emits the framed diff.
pub fn create_extraction_script(envrc_path: &str) -> (r: String)
    ensures
        r@ == SCRIPT_PRELUDE@ + envrc_path@ + SCRIPT_EPILOGUE@,
{
    String::from_str(SCRIPT_PRELUDE).concat(envrc_path).concat(SCRIPT_EPILOGUE)
}

/// The mapping the framed block of the wrapper's output denotes. Lines are
/// trimmed; everything before the start marker and after the end marker is
/// ignored; between the markers, each line holding an `=` binds the text
/// before its first `=` to the text after it, and a later line for a key
/// overwrites an earlier one.
pub open spec fn parse_output_lines(
    ls: Seq<Seq<char>>,
    acc: Map<Seq<char>, Seq<char>>,
    in_section: bool,
) -> Map<Seq<char>, Seq<char>>
    decreases ls.len(),
{
    if ls.len() == 0 {
        acc
    } else {
        let t = trim_spec(ls[0]);
        if t == "=== ENVY_ENV_START ==="@ {
            parse_output_lines(ls.skip(1), acc, true)
        } else if t == "=== ENVY_ENV_END ==="@ {
            acc
        } else if in_section && t.len() > 0 && find_c(t, '=') != -1 {
            let e = find_c(t, '=');
            parse_output_lines(ls.skip(1), acc.insert(t.take(e), t.skip(e + 1)), in_section)
        } else {
            parse_output_lines(ls.skip(1), acc, in_section)
        }
    }
}

/// The variables the wrapper's whole standard output reports.
pub open spec fn parse_env_output_spec(out: Seq<char>) -> Map<Seq<char>, Seq<char>> {
    parse_output_lines(lines_spec(out), Map::empty(), false)
}

/// Parses the framed variable block out of the wrapper script's standard
/// output. Text outside the sentinel markers is ignored.
pub fn parse_env_output(output: &str) -> (r: Result<EnvMap, EnvyError>)
    ensures
        r matches Ok(m) && m.wf() && m.as_map() == parse_env_output_spec(output@),
{
    let lines = lines_from_text(output);
    let n = lines.len();
    let ghost all = lines.deep_view();
    let mut m = EnvMap::new();
    let mut in_section = false;
    let mut i: usize = 0;
    proof {
        assert(all.skip(0) =~= all);
    }
    while i < n
        invariant
            i <= n,
            n == lines.len(),
            all == lines.deep_view(),
            m.wf(),
            parse_env_output_spec(output@) == parse_output_lines(
                all.skip(i as int),
                m.as_map(),
                in_section,
            ),
        decreases n - i,
    {
        let ghost tail = all.skip(i as int);
        proof {
            assert(tail[0] == all[i as int]);
            assert(tail.skip(1) =~= all.skip(i + 1));
        }
        let line: &String = &lines[i];
        let t = trim_of(line.as_str());
        let ts: &str = t.as_str();
        if crate::text::str_eq_str(ts, ENV_START_MARKER) {
            in_section = true;
        } else if crate::text::str_eq_str(ts, ENV_END_MARKER) {
            return Ok(m);
        } else if in_section && ts.unicode_len() > 0 {
            match find_char(ts, '=') {
                Option::Some(eq) => {
                    let tlen = ts.unicode_len();
                    let key = ts.substring_char(0, eq).to_owned();
                    let value = ts.substring_char(eq + 1, tlen).to_owned();
                    proof {
                        let e = find_c(t@, '=');
                        assert(t@.subrange(0, eq as int) =~= t@.take(e));
                        assert(t@.subrange(eq + 1, tlen as int) =~= t@.skip(e + 1));
                    }
                    m.insert(key, value);
                },
                Option::None => {},
            }
        }
        i = i + 1;
    }
    Ok(m)
}

/// Interprets a finished sandbox run. A failed run is a hard failure that
/// carries the captured diagnostic text and yields no partial variables; a
/// successful run yields exactly the framed variable block of its output.
pub fn process_script_output(success: bool, stdout: &str, stderr: &str) -> (r: Result<
    EnvMap,
    EnvyError,
>)
    ensures
        success ==> (r matches Ok(m) && m.wf() && m.as_map() == parse_env_output_spec(stdout@)),
        !success ==> (r matches Err(EnvyError::ScriptExecutionError(d)) && d@ == stderr@),
{
    if success {
        parse_env_output(stdout)
    } else {
        Err(EnvyError::ScriptExecutionError(stderr.to_owned()))
    }
}

} // verus!
