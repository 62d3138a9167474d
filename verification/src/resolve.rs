//! The resolution orchestrator and the output formats: merging
//! pattern-sourced and file-sourced variables for a directory, and rendering
//! the merged list for each supported shell dialect.

use vstd::prelude::*;
use vstd::string::*;

use crate::errors::EnvyError;
use crate::jsonout::{json_map_insert_str, json_map_new, json_map_to_string, json_object_of};
use crate::parser::{env_lines_spec, parse_line_spec, split_env_var};
use crate::settings::{first_match_spec, EnvySettings};
use crate::text::{has_prefix, lines_spec, str_eq_str, str_has_prefix};

verus! {

/// A variable line as the bash and zsh dialects print it: the line itself
/// when it already carries an `export ` prefix, the prefixed line otherwise.
pub open spec fn export_line_spec(l: Seq<char>) -> Seq<char> {
    if has_prefix(l, "export "@) {
        l
    } else {
        "export "@ + l
    }
}

/// The bash/zsh rendering of a variable list, line for line.
pub open spec fn bash_lines_spec(ls: Seq<Seq<char>>) -> Seq<Seq<char>>
    decreases ls.len(),
{
    if ls.len() == 0 {
        Seq::empty()
    } else {
        seq![export_line_spec(ls[0])] + bash_lines_spec(ls.skip(1))
    }
}

/// The fish rendering of a variable list: a `set -gx KEY VALUE` line for
/// every line that parses as a variable; the rest contribute nothing.
pub open spec fn fish_lines_spec(ls: Seq<Seq<char>>) -> Seq<Seq<char>>
    decreases ls.len(),
{
    if ls.len() == 0 {
        Seq::empty()
    } else {
        let rest = fish_lines_spec(ls.skip(1));
        match parse_line_spec(ls[0]) {
            Some(kv) => seq!["set -gx "@ + kv.0 + " "@ + kv.1] + rest,
            None => rest,
        }
    }
}

/// The key/value mapping a variable list denotes: each parsed line binds its
/// key, and a later line for a key overwrites an earlier one.
pub open spec fn env_map_of_lines(
    ls: Seq<Seq<char>>,
    acc: Map<Seq<char>, Seq<char>>,
) -> Map<Seq<char>, Seq<char>>
    decreases ls.len(),
{
    if ls.len() == 0 {
        acc
    } else {
        match parse_line_spec(ls[0]) {
            Some(kv) => env_map_of_lines(ls.skip(1), acc.insert(kv.0, kv.1)),
            None => env_map_of_lines(ls.skip(1), acc),
        }
    }
}

/// In the keyed view of a merged variable list, the later part overwrites
/// the earlier one: folding a concatenation folds its right part over the
/// left part's result. With the merge order of `resolve_vars`, file-sourced
/// variables thus take precedence over pattern-sourced ones, and later files
/// over earlier ones.
pub proof fn lemma_env_map_of_append(
    a: Seq<Seq<char>>,
    b: Seq<Seq<char>>,
    acc: Map<Seq<char>, Seq<char>>,
)
    ensures
        env_map_of_lines(a + b, acc) == env_map_of_lines(b, env_map_of_lines(a, acc)),
    decreases a.len(),
{
    if a.len() == 0 {
        assert(a + b =~= b);
    } else {
        assert((a + b)[0] == a[0]);
        assert((a + b).skip(1) =~= a.skip(1) + b);
        match parse_line_spec(a[0]) {
            Some(kv) => {
                lemma_env_map_of_append(a.skip(1), b, acc.insert(kv.0, kv.1));
            },
            None => {
                lemma_env_map_of_append(a.skip(1), b, acc);
            },
        }
    }
}

/// Renders a variable list for bash or zsh: one `export KEY=value` line per
/// variable, in order.
pub fn export_bash_zsh(env_vars: &Vec<String>) -> (r: Vec<String>)
    ensures
        r.deep_view() == bash_lines_spec(env_vars.deep_view()),
{
    let n = env_vars.len();
    let ghost all = env_vars.deep_view();
    let mut r: Vec<String> = Vec::new();
    let mut i: usize = 0;
    proof {
        assert(r.deep_view() =~= Seq::<Seq<char>>::empty());
        assert(all.skip(0) =~= all);
        assert(Seq::<Seq<char>>::empty() + bash_lines_spec(all) =~= bash_lines_spec(all));
    }
    while i < n
        invariant
            i <= n,
            n == env_vars.len(),
            all == env_vars.deep_view(),
            bash_lines_spec(all) == r.deep_view() + bash_lines_spec(all.skip(i as int)),
        decreases n - i,
    {
        let ghost prev = r.deep_view();
        let ghost tail = all.skip(i as int);
        proof {
            assert(tail[0] == all[i as int]);
            assert(tail.skip(1) =~= all.skip(i + 1));
            assert(all[i as int] == env_vars@[i as int]@);
        }
        let line: &String = &env_vars[i];
        if str_has_prefix(line.as_str(), "export ") {
            r.push(line.clone());
        } else {
            r.push(String::from_str("export ").concat(line.as_str()));
        }
        proof {
            assert(r.deep_view() =~= prev.push(export_line_spec(all[i as int])));
            assert(r.deep_view() + bash_lines_spec(all.skip(i + 1)) =~= prev + bash_lines_spec(
                tail,
            ));
        }
        i = i + 1;
    }
    proof {
        assert(bash_lines_spec(all.skip(n as int)) =~= Seq::<Seq<char>>::empty());
        assert(r.deep_view() + bash_lines_spec(all.skip(n as int)) =~= r.deep_view());
    }
    r
}

/// Renders a variable list for fish: one `set -gx KEY VALUE` line per line
/// that parses as a variable, in order.
pub fn export_fish(env_vars: &Vec<String>) -> (r: Vec<String>)
    ensures
        r.deep_view() == fish_lines_spec(env_vars.deep_view()),
{
    let n = env_vars.len();
    let ghost all = env_vars.deep_view();
    let mut r: Vec<String> = Vec::new();
    let mut i: usize = 0;
    proof {
        assert(r.deep_view() =~= Seq::<Seq<char>>::empty());
        assert(all.skip(0) =~= all);
        assert(Seq::<Seq<char>>::empty() + fish_lines_spec(all) =~= fish_lines_spec(all));
    }
    while i < n
        invariant
            i <= n,
            n == env_vars.len(),
            all == env_vars.deep_view(),
            fish_lines_spec(all) == r.deep_view() + fish_lines_spec(all.skip(i as int)),
        decreases n - i,
    {
        let ghost prev = r.deep_view();
        let ghost tail = all.skip(i as int);
        proof {
            assert(tail[0] == all[i as int]);
            assert(tail.skip(1) =~= all.skip(i + 1));
            assert(all[i as int] == env_vars@[i as int]@);
        }
        match split_env_var(env_vars[i].as_str()) {
            Option::Some(kv) => {
                let line = String::from_str("set -gx ").concat(kv.0.as_str()).concat(" ").concat(
                    kv.1.as_str(),
                );
                r.push(line);
                proof {
                    assert(r.deep_view() =~= prev.push(
                        "set -gx "@ + kv.0@ + " "@ + kv.1@,
                    ));
                    assert(r.deep_view() + fish_lines_spec(all.skip(i + 1)) =~= prev
                        + fish_lines_spec(tail));
                }
            },
            Option::None => {
                proof {
                    assert(r.deep_view() + fish_lines_spec(all.skip(i + 1)) =~= prev
                        + fish_lines_spec(tail));
                }
            },
        }
        i = i + 1;
    }
    proof {
        assert(fish_lines_spec(all.skip(n as int)) =~= Seq::<Seq<char>>::empty());
        assert(r.deep_view() + fish_lines_spec(all.skip(n as int)) =~= r.deep_view());
    }
    r
}

/// Renders a variable list as one compact JSON object: each parsed line
/// becomes a string member, and a later line for a key overwrites an
/// earlier one.
pub fn export_json(env_vars: &Vec<String>) -> (r: String)
    ensures
        r@ == json_object_of(
            env_map_of_lines(env_vars.deep_view(), Map::<Seq<char>, Seq<char>>::empty()),
        ),
{
    let n = env_vars.len();
    let ghost all = env_vars.deep_view();
    let mut m = json_map_new();
    let mut i: usize = 0;
    proof {
        assert(all.skip(0) =~= all);
    }
    while i < n
        invariant
            i <= n,
            n == env_vars.len(),
            all == env_vars.deep_view(),
            env_map_of_lines(all, Map::<Seq<char>, Seq<char>>::empty()) == env_map_of_lines(
                all.skip(i as int),
                crate::jsonout::json_map_model(m),
            ),
        decreases n - i,
    {
        let ghost tail = all.skip(i as int);
        proof {
            assert(tail[0] == all[i as int]);
            assert(tail.skip(1) =~= all.skip(i + 1));
            assert(all[i as int] == env_vars@[i as int]@);
        }
        match split_env_var(env_vars[i].as_str()) {
            Option::Some(kv) => {
                json_map_insert_str(&mut m, kv.0.as_str(), kv.1.as_str());
            },
            Option::None => {},
        }
        i = i + 1;
    }
    json_map_to_string(&m)
}

/// Renders a variable list for the requested shell dialect. `bash` and
/// `zsh` take export lines, `fish` takes `set -gx` lines, and `json` takes a
/// single compact object line; any other dialect is refused.
pub fn export_lines(shell: &str, env_vars: &Vec<String>) -> (r: Result<Vec<String>, EnvyError>)
    ensures
        (shell@ == "bash"@ || shell@ == "zsh"@) ==> (r matches Ok(v) && v.deep_view()
            == bash_lines_spec(env_vars.deep_view())),
        shell@ == "fish"@ ==> (r matches Ok(v) && v.deep_view() == fish_lines_spec(
            env_vars.deep_view(),
        )),
        shell@ == "json"@ ==> (r matches Ok(v) && v.deep_view() == seq![
            json_object_of(
                env_map_of_lines(env_vars.deep_view(), Map::<Seq<char>, Seq<char>>::empty()),
            ),
        ]),
        !(shell@ == "bash"@ || shell@ == "zsh"@ || shell@ == "fish"@ || shell@ == "json"@) ==> (
        r matches Err(EnvyError::UnsupportedShell(s)) && s@ == shell@),
{
    proof {
        reveal_strlit("bash");
        reveal_strlit("zsh");
        reveal_strlit("fish");
        reveal_strlit("json");
        assert("bash"@[0] == 'b' && "zsh"@[0] == 'z' && "fish"@[0] == 'f' && "json"@[0] == 'j');
        assert("bash"@ != "fish"@ && "bash"@ != "json"@ && "bash"@ != "zsh"@);
        assert("zsh"@ != "fish"@ && "zsh"@ != "json"@);
        assert("fish"@ != "json"@);
    }
    if str_eq_str(shell, "bash") || str_eq_str(shell, "zsh") {
        Ok(export_bash_zsh(env_vars))
    } else if str_eq_str(shell, "fish") {
        Ok(export_fish(env_vars))
    } else if str_eq_str(shell, "json") {
        let line = export_json(env_vars);
        let mut v: Vec<String> = Vec::new();
        let ghost line_view = line@;
        v.push(line);
        proof {
            assert(v.deep_view() =~= seq![line_view]);
        }
        Ok(v)
    } else {
        Err(EnvyError::UnsupportedShell(shell.to_owned()))
    }
}

/// The variables a run of file texts contributes: each file's kept lines, in
/// file order.
pub open spec fn files_vars_spec(texts: Seq<Seq<char>>) -> Seq<Seq<char>>
    decreases texts.len(),
{
    if texts.len() == 0 {
        Seq::empty()
    } else {
        env_lines_spec(lines_spec(texts[0])) + files_vars_spec(texts.skip(1))
    }
}

/// The merged variable list for a directory: the matching pattern rule's
/// variables first, then each active file's variables in registration
/// order. Later entries take precedence in any keyed view.
pub open spec fn resolve_spec(
    settings: EnvySettings,
    dir: Seq<char>,
    texts: Seq<Seq<char>>,
) -> Seq<Seq<char>> {
    let pattern_part = match first_match_spec(settings.paths_seq(), dir) {
        Some(env) => env,
        None => Seq::empty(),
    };
    pattern_part + files_vars_spec(texts)
}

/// Merges the variables for a directory: the first matching pattern rule's
/// variables, then the variables of each active file's text, in order. The
/// texts are those of the files `matching_env_files` names, in that order.
pub fn resolve_vars(settings: &EnvySettings, dir: &str, file_texts: &Vec<String>) -> (r: Vec<
    String,
>)
    ensures
        r.deep_view() == resolve_spec(*settings, dir@, file_texts.deep_view()),
{
    let ghost texts = file_texts.deep_view();
    let mut all: Vec<String> = match settings.matching_patterns(dir) {
        Option::Some(v) => v,
        Option::None => Vec::new(),
    };
    proof {
        assert(texts.skip(0) =~= texts);
        if first_match_spec(settings.paths_seq(), dir@) is None {
            assert(all.deep_view() =~= Seq::<Seq<char>>::empty());
        }
        assert(resolve_spec(*settings, dir@, texts) =~= all.deep_view() + files_vars_spec(texts));
    }
    let n = file_texts.len();
    let mut i: usize = 0;
    while i < n
        invariant
            i <= n,
            n == file_texts.len(),
            texts == file_texts.deep_view(),
            resolve_spec(*settings, dir@, texts) == all.deep_view() + files_vars_spec(
                texts.skip(i as int),
            ),
        decreases n - i,
    {
        let ghost prev = all.deep_view();
        let ghost tail = texts.skip(i as int);
        proof {
            assert(tail[0] == texts[i as int]);
            assert(tail.skip(1) =~= texts.skip(i + 1));
            assert(texts[i as int] == file_texts@[i as int]@);
        }
        let mut file_vars = crate::parser::env_lines_from_text(file_texts[i].as_str());
        let ghost added = file_vars.deep_view();
        all.append(&mut file_vars);
        proof {
            assert(all.deep_view() =~= prev + added);
            assert((prev + added) + files_vars_spec(texts.skip(i + 1)) =~= prev + (added
                + files_vars_spec(texts.skip(i + 1))));
            assert(added + files_vars_spec(texts.skip(i + 1)) =~= files_vars_spec(tail));
        }
        i = i + 1;
    }
    proof {
        assert(files_vars_spec(texts.skip(n as int)) =~= Seq::<Seq<char>>::empty());
        assert(all.deep_view() + files_vars_spec(texts.skip(n as int)) =~= all.deep_view());
    }
    all
}

/// An active environment file together with its text, as read from disk.
pub struct LoadedFile {
    pub path: String,
    pub text: String,
}

/// The report block for one loaded file: a heading naming the file, its
/// variable lines, and a blank separator line.
pub open spec fn show_file_block(path: Seq<char>, text: Seq<char>) -> Seq<Seq<char>> {
    seq!["Loaded from `"@ + path + "`:"@] + env_lines_spec(lines_spec(text)) + seq![
        Seq::<char>::empty(),
    ]
}

/// The report blocks of a run of loaded files, in order.
pub open spec fn show_files_spec(files: Seq<LoadedFile>) -> Seq<Seq<char>>
    decreases files.len(),
{
    if files.len() == 0 {
        Seq::empty()
    } else {
        show_file_block(files[0].path@, files[0].text@) + show_files_spec(files.skip(1))
    }
}

/// The whole report for a directory: each loaded file's block, then the
/// matching pattern rule's variables, or a no-match notice when nothing at
/// all applies.
pub open spec fn show_spec(
    settings: EnvySettings,
    dir: Seq<char>,
    files: Seq<LoadedFile>,
) -> Seq<Seq<char>> {
    show_files_spec(files) + (match first_match_spec(settings.paths_seq(), dir) {
        Some(env) => if env.len() == 0 {
            seq![Seq::<char>::empty()]
        } else {
            env
        },
        None => if files.len() == 0 {
            seq![dir + ": envy found no pattern matches for this directory"@]
        } else {
            Seq::empty()
        },
    })
}

/// Builds the `show` report: what was loaded from each active file, and what
/// the patterns contribute. The files are those `matching_env_files` names,
/// each with its text.
pub fn show_lines(settings: &EnvySettings, dir: &str, files: &Vec<LoadedFile>) -> (r: Vec<String>)
    ensures
        r.deep_view() == show_spec(*settings, dir@, files@),
{
    let n = files.len();
    let mut r: Vec<String> = Vec::new();
    let mut i: usize = 0;
    proof {
        assert(r.deep_view() =~= Seq::<Seq<char>>::empty());
        assert(files@.skip(0) =~= files@);
        assert(Seq::<Seq<char>>::empty() + show_files_spec(files@) =~= show_files_spec(files@));
    }
    while i < n
        invariant
            i <= n,
            n == files.len(),
            show_files_spec(files@) == r.deep_view() + show_files_spec(files@.skip(i as int)),
        decreases n - i,
    {
        let ghost prev = r.deep_view();
        let ghost tail = files@.skip(i as int);
        proof {
            assert(tail[0] == files@[i as int]);
            assert(tail.skip(1) =~= files@.skip(i + 1));
        }
        let heading = String::from_str("Loaded from `").concat(files[i].path.as_str()).concat(
            "`:",
        );
        r.push(heading);
        let mut vars = crate::parser::env_lines_from_text(files[i].text.as_str());
        let ghost added = vars.deep_view();
        r.append(&mut vars);
        r.push(String::new());
        proof {
            let block = show_file_block(files@[i as int].path@, files@[i as int].text@);
            assert(r.deep_view() =~= prev + block);
            assert((prev + block) + show_files_spec(files@.skip(i + 1)) =~= prev
                + show_files_spec(tail));
        }
        i = i + 1;
    }
    proof {
        assert(show_files_spec(files@.skip(n as int)) =~= Seq::<Seq<char>>::empty());
        assert(r.deep_view() =~= show_files_spec(files@));
    }
    let ghost blocks = r.deep_view();
    match settings.matching_patterns(dir) {
        Option::Some(env) => {
            if env.len() == 0 {
                r.push(String::new());
                proof {
                    assert(r.deep_view() =~= blocks.push(Seq::<char>::empty()));
                    assert(r.deep_view() =~= show_spec(*settings, dir@, files@));
                }
            } else {
                let mut env_mut = env;
                let ghost added = env_mut.deep_view();
                r.append(&mut env_mut);
                proof {
                    assert(r.deep_view() =~= blocks + added);
                    assert(r.deep_view() =~= show_spec(*settings, dir@, files@));
                }
            }
        },
        Option::None => {
            if n == 0 {
                let notice = dir.to_owned().concat(
                    ": envy found no pattern matches for this directory",
                );
                r.push(notice);
                proof {
                    assert(r.deep_view() =~= show_spec(*settings, dir@, files@));
                }
            } else {
                proof {
                    assert(r.deep_view() =~= show_spec(*settings, dir@, files@));
                }
            }
        },
    }
    r
}

/// What `find` prints for a variable: its value when the environment holds
/// it, a not-found notice otherwise.
pub fn find_output(variable: &str, value: &Option<String>) -> (r: String)
    ensures
        value matches Some(v) ==> r@ == v@,
        value is None ==> r@ == "Variable "@ + variable@ + " not found"@,
{
    match value {
        Option::Some(v) => v.clone(),
        Option::None => String::from_str("Variable ").concat(variable).concat(" not found"),
    }
}

} // verus!
