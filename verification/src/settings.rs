//! The allow-list: the registered environment files and the pattern rules,
//! with the matching operations over them.
//!
//! Registered paths are meant to be absolute and canonicalized; that is what
//! makes the ancestry comparison of the directory matcher correct. Reading
//! the allow-list from durable storage and writing it back live outside this
//! library; the operations here are the ones whose behaviour it pins down.

use vstd::prelude::*;
use vstd::string::*;

use crate::paths::{file_active_for, file_active_spec};
use crate::pattern::{regex_compiles, regex_is_match, regex_match, regex_pattern_valid};
use crate::text::str_eq_str;

verus! {

/// One pattern rule: a regular expression over directory paths, and the
/// literal `KEY=value` assignments it activates.
#[derive(Debug)]
pub struct PathConfig {
    /// The regular expression, kept as its source text.
    pub pattern: String,
    /// The variables to load when the pattern matches, in order.
    pub env: Vec<String>,
}

/// Whether a rule matches a directory: its pattern compiles and matches the
/// directory's text form.
pub open spec fn rule_matches(p: PathConfig, dir: Seq<char>) -> bool {
    regex_compiles(p.pattern@) && regex_match(p.pattern@, dir)
}

/// The variable list of the first rule that matches the directory, in
/// registration order, or nothing when no rule matches.
pub open spec fn first_match_spec(ps: Seq<PathConfig>, dir: Seq<char>) -> Option<Seq<Seq<char>>>
    decreases ps.len(),
{
    if ps.len() == 0 {
        None
    } else if rule_matches(ps[0], dir) {
        Some(ps[0].env.deep_view())
    } else {
        first_match_spec(ps.skip(1), dir)
    }
}

/// Every rule's pattern compiles.
pub open spec fn all_rules_compile(ps: Seq<PathConfig>) -> bool {
    forall|i: int| 0 <= i < ps.len() ==> regex_compiles(ps[i].pattern@)
}

/// The registered files that are active for a directory, in registration
/// order.
pub open spec fn active_files_spec(files: Seq<Seq<char>>, dir: Seq<char>) -> Seq<Seq<char>>
    decreases files.len(),
{
    if files.len() == 0 {
        Seq::empty()
    } else if file_active_spec(files[0], dir) {
        seq![files[0]] + active_files_spec(files.skip(1), dir)
    } else {
        active_files_spec(files.skip(1), dir)
    }
}

/// The allow-list after registering a file: unchanged when the path is
/// already present, the path appended otherwise.
pub open spec fn add_env_spec(s: Seq<Seq<char>>, p: Seq<char>) -> Seq<Seq<char>> {
    if s.contains(p) {
        s
    } else {
        s.push(p)
    }
}

/// The allow-list after unregistering a file: every entry equal to the path
/// is removed.
pub open spec fn remove_env_spec(s: Seq<Seq<char>>, p: Seq<char>) -> Seq<Seq<char>>
    decreases s.len(),
{
    if s.len() == 0 {
        s
    } else if s[0] == p {
        remove_env_spec(s.skip(1), p)
    } else {
        seq![s[0]] + remove_env_spec(s.skip(1), p)
    }
}

/// Settings for environment variable management: the allowed environment
/// files, and the directory patterns with their variables.
#[derive(Debug)]
pub struct EnvySettings {
    /// The allowed environment files, absolute and canonicalized.
    pub envs: Option<Vec<String>>,
    /// The pattern rules, in registration order.
    pub paths: Option<Vec<PathConfig>>,
}

impl EnvySettings {
    /// The registered file paths; an absent collection holds nothing.
    pub open spec fn envs_seq(&self) -> Seq<Seq<char>> {
        match self.envs {
            Some(v) => v.deep_view(),
            None => Seq::empty(),
        }
    }

    /// The pattern rules; an absent collection holds nothing.
    pub open spec fn paths_seq(&self) -> Seq<PathConfig> {
        match self.paths {
            Some(v) => v@,
            None => Seq::empty(),
        }
    }

    /// An empty allow-list, as a first run starts with.
    pub fn empty() -> (r: Self)
        ensures
            r.envs_seq() == Seq::<Seq<char>>::empty(),
            r.paths_seq() == Seq::<PathConfig>::empty(),
            r.envs is None,
            r.paths is None,
    {
        EnvySettings { envs: None, paths: None }
    }

    /// Registers an environment file: appends the path unless it is already
    /// present. The pattern rules are untouched.
    pub fn add_env(&mut self, path: String)
        ensures
            final(self).envs_seq() == add_env_spec(old(self).envs_seq(), path@),
            final(self).paths == old(self).paths,
    {
        let ghost old_seq = old(self).envs_seq();
        let mut envs: Vec<String> = match self.envs.take() {
            Option::Some(v) => v,
            Option::None => Vec::new(),
        };
        proof {
            assert(envs.deep_view() =~= old_seq);
        }
        let n = envs.len();
        let mut i: usize = 0;
        while i < n && !str_eq_str(envs[i].as_str(), path.as_str())
            invariant
                i <= n,
                n == envs.len(),
                envs.deep_view() == old_seq,
                forall|j: int| 0 <= j < i ==> envs@[j]@ != path@,
            decreases n - i,
        {
            i = i + 1;
        }
        if i == n {
            proof {
                assert(forall|j: int| 0 <= j < old_seq.len() ==> old_seq[j] == envs@[j]@);
                assert(!old_seq.contains(path@));
            }
            envs.push(path);
            proof {
                assert(envs.deep_view() =~= old_seq.push(path@));
            }
        } else {
            proof {
                assert(envs@[i as int]@ == path@);
                assert(old_seq[i as int] == path@);
                assert(old_seq.contains(path@));
            }
        }
        self.envs = Some(envs);
    }

    /// Unregisters an environment file: removes every entry equal to the
    /// path, and does nothing when none is. The pattern rules are untouched.
    pub fn remove_env(&mut self, path: String)
        ensures
            final(self).envs_seq() == remove_env_spec(old(self).envs_seq(), path@),
            final(self).paths == old(self).paths,
    {
        let ghost old_seq = old(self).envs_seq();
        match self.envs.take() {
            Option::None => {
                proof {
                    assert(old_seq =~= Seq::<Seq<char>>::empty());
                }
                self.envs = None;
            },
            Option::Some(envs) => {
                proof {
                    assert(envs.deep_view() =~= old_seq);
                }
                let n = envs.len();
                let mut kept: Vec<String> = Vec::new();
                let mut i: usize = 0;
                proof {
                    assert(kept.deep_view() =~= Seq::<Seq<char>>::empty());
                    assert(old_seq.skip(0) =~= old_seq);
                    assert(Seq::<Seq<char>>::empty() + remove_env_spec(old_seq, path@)
                        =~= remove_env_spec(old_seq, path@));
                }
                while i < n
                    invariant
                        i <= n,
                        n == envs.len(),
                        envs.deep_view() == old_seq,
                        remove_env_spec(old_seq, path@) == kept.deep_view() + remove_env_spec(
                            old_seq.skip(i as int),
                            path@,
                        ),
                    decreases n - i,
                {
                    let ghost prev = kept.deep_view();
                    let ghost tail = old_seq.skip(i as int);
                    proof {
                        assert(tail[0] == old_seq[i as int]);
                        assert(tail.skip(1) =~= old_seq.skip(i + 1));
                        assert(old_seq[i as int] == envs@[i as int]@);
                    }
                    if !str_eq_str(envs[i].as_str(), path.as_str()) {
                        kept.push(envs[i].clone());
                        proof {
                            assert(kept.deep_view() =~= prev.push(old_seq[i as int]));
                            assert(kept.deep_view() + remove_env_spec(old_seq.skip(i + 1), path@)
                                =~= prev + remove_env_spec(tail, path@));
                        }
                    }
                    i = i + 1;
                }
                proof {
                    assert(remove_env_spec(old_seq.skip(n as int), path@)
                        =~= Seq::<Seq<char>>::empty());
                    assert(kept.deep_view() + remove_env_spec(old_seq.skip(n as int), path@)
                        =~= kept.deep_view());
                }
                self.envs = Some(kept);
            },
        }
    }

    /// The variable list of the first rule, in registration order, whose
    /// pattern matches the directory, or nothing when no rule does.
    pub fn matching_patterns(&self, dir: &str) -> (r: Option<Vec<String>>)
        ensures
            r is Some <==> first_match_spec(self.paths_seq(), dir@) is Some,
            r matches Some(v) ==> first_match_spec(self.paths_seq(), dir@) == Some(v.deep_view()),
    {
        match &self.paths {
            Option::None => None,
            Option::Some(ps) => {
                let n = ps.len();
                let mut i: usize = 0;
                proof {
                    assert(ps@.skip(0) =~= ps@);
                }
                while i < n
                    invariant
                        i <= n,
                        n == ps.len(),
                        ps@ == self.paths_seq(),
                        first_match_spec(self.paths_seq(), dir@) == first_match_spec(
                            ps@.skip(i as int),
                            dir@,
                        ),
                    decreases n - i,
                {
                    let ghost tail = ps@.skip(i as int);
                    proof {
                        assert(tail[0] == ps@[i as int]);
                        assert(tail.skip(1) =~= ps@.skip(i + 1));
                    }
                    let matched = regex_is_match(ps[i].pattern.as_str(), dir);
                    match matched {
                        Option::Some(true) => {
                            return Some(clone_string_vec(&ps[i].env));
                        },
                        _ => {
                            proof {
                                assert(!rule_matches(ps@[i as int], dir@));
                            }
                        },
                    }
                    i = i + 1;
                }
                None
            },
        }
    }

    /// The registered files active for the directory: those whose parent
    /// directory equals it or lies above it, in registration order.
    pub fn matching_env_files(&self, dir: &str) -> (r: Vec<String>)
        ensures
            r.deep_view() == active_files_spec(self.envs_seq(), dir@),
    {
        let mut r: Vec<String> = Vec::new();
        proof {
            assert(r.deep_view() =~= Seq::<Seq<char>>::empty());
        }
        match &self.envs {
            Option::None => r,
            Option::Some(envs) => {
                let n = envs.len();
                let mut i: usize = 0;
                let ghost all = self.envs_seq();
                proof {
                    assert(all.skip(0) =~= all);
                    assert(Seq::<Seq<char>>::empty() + active_files_spec(all, dir@)
                        =~= active_files_spec(all, dir@));
                }
                while i < n
                    invariant
                        i <= n,
                        n == envs.len(),
                        all == envs.deep_view(),
                        active_files_spec(all, dir@) == r.deep_view() + active_files_spec(
                            all.skip(i as int),
                            dir@,
                        ),
                    decreases n - i,
                {
                    let ghost prev = r.deep_view();
                    let ghost tail = all.skip(i as int);
                    proof {
                        assert(tail[0] == all[i as int]);
                        assert(tail.skip(1) =~= all.skip(i + 1));
                        assert(all[i as int] == envs@[i as int]@);
                    }
                    if file_active_for(envs[i].as_str(), dir) {
                        r.push(envs[i].clone());
                        proof {
                            assert(r.deep_view() =~= prev.push(all[i as int]));
                            assert(r.deep_view() + active_files_spec(all.skip(i + 1), dir@)
                                =~= prev + active_files_spec(tail, dir@));
                        }
                    }
                    i = i + 1;
                }
                proof {
                    assert(active_files_spec(all.skip(n as int), dir@)
                        =~= Seq::<Seq<char>>::empty());
                    assert(r.deep_view() + active_files_spec(all.skip(n as int), dir@)
                        =~= r.deep_view());
                }
                r
            },
        }
    }

    /// Whether every rule's pattern is a valid regular expression. A loaded
    /// allow-list must pass this check: one invalid pattern fails the whole
    /// rule set.
    pub fn patterns_compile(&self) -> (r: bool)
        ensures
            r == all_rules_compile(self.paths_seq()),
    {
        match &self.paths {
            Option::None => true,
            Option::Some(ps) => {
                let n = ps.len();
                let mut i: usize = 0;
                while i < n
                    invariant
                        i <= n,
                        n == ps.len(),
                        ps@ == self.paths_seq(),
                        forall|j: int| 0 <= j < i ==> regex_compiles(ps@[j].pattern@),
                    decreases n - i,
                {
                    if !regex_pattern_valid(ps[i].pattern.as_str()) {
                        return false;
                    }
                    i = i + 1;
                }
                true
            },
        }
    }
}

/// Copies a list of variable lines.
fn clone_string_vec(v: &Vec<String>) -> (r: Vec<String>)
    ensures
        r.deep_view() == v.deep_view(),
{
    let n = v.len();
    let mut r: Vec<String> = Vec::new();
    let mut i: usize = 0;
    while i < n
        invariant
            i <= n,
            n == v.len(),
            r@.len() == i,
            forall|j: int| 0 <= j < i ==> r@[j]@ == v@[j]@,
        decreases n - i,
    {
        r.push(v[i].clone());
        i = i + 1;
    }
    proof {
        assert(r.deep_view() =~= v.deep_view());
    }
    r
}

/// Registering the same path twice leaves the allow-list exactly as one
/// registration does: `add_env` is idempotent.
pub proof fn lemma_add_env_idempotent(s: Seq<Seq<char>>, p: Seq<char>)
    ensures
        add_env_spec(add_env_spec(s, p), p) == add_env_spec(s, p),
{
    if !s.contains(p) {
        assert(s.push(p)[s.len() as int] == p);
        assert(s.push(p).contains(p));
    }
}

/// Unregistering a path twice leaves the allow-list exactly as one removal
/// does: `remove_env` is idempotent.
pub proof fn lemma_remove_env_idempotent(s: Seq<Seq<char>>, p: Seq<char>)
    ensures
        remove_env_spec(remove_env_spec(s, p), p) == remove_env_spec(s, p),
    decreases s.len(),
{
    if s.len() > 0 {
        lemma_remove_env_idempotent(s.skip(1), p);
        if s[0] != p {
            let once = seq![s[0]] + remove_env_spec(s.skip(1), p);
            assert(once[0] == s[0]);
            assert(once.skip(1) =~= remove_env_spec(s.skip(1), p));
        }
    }
}

/// A path is active among the registered files exactly when it is registered
/// and its parent directory covers the directory.
pub proof fn lemma_active_files_membership(files: Seq<Seq<char>>, dir: Seq<char>, f: Seq<char>)
    ensures
        active_files_spec(files, dir).contains(f) <==> (files.contains(f) && file_active_spec(
            f,
            dir,
        )),
    decreases files.len(),
{
    if files.len() > 0 {
        lemma_active_files_membership(files.skip(1), dir, f);
        let rest = active_files_spec(files.skip(1), dir);
        if files.contains(f) && file_active_spec(f, dir) {
            let w = choose|w: int| 0 <= w < files.len() && files[w] == f;
            if w > 0 {
                assert(files.skip(1)[w - 1] == f);
                assert(files.skip(1).contains(f));
            }
            if file_active_spec(files[0], dir) {
                let head = seq![files[0]] + rest;
                if f == files[0] {
                    assert(head[0] == f);
                    assert(head.contains(f));
                } else {
                    let v = choose|v: int| 0 <= v < rest.len() && rest[v] == f;
                    assert(head[v + 1] == f);
                    assert(head.contains(f));
                }
            }
        }
        if active_files_spec(files, dir).contains(f) {
            if file_active_spec(files[0], dir) {
                let head = seq![files[0]] + rest;
                let w = choose|w: int| 0 <= w < head.len() && head[w] == f;
                if w == 0 {
                    assert(files[0] == f);
                } else {
                    assert(rest[w - 1] == f);
                    assert(rest.contains(f));
                }
            }
            if files.skip(1).contains(f) {
                let v = choose|v: int| 0 <= v < files.skip(1).len() && files.skip(1)[v] == f;
                assert(files[v + 1] == f);
            }
        }
    }
}

/// The pattern matcher honors registration order: when rules match, the
/// earliest matching rule's variables are the result.
pub proof fn lemma_first_match_earliest(ps: Seq<PathConfig>, dir: Seq<char>, i: int)
    requires
        0 <= i < ps.len(),
        rule_matches(ps[i], dir),
        forall|j: int| 0 <= j < i ==> !rule_matches(ps[j], dir),
    ensures
        first_match_spec(ps, dir) == Some(ps[i].env.deep_view()),
    decreases i,
{
    if i > 0 {
        lemma_first_match_earliest(ps.skip(1), dir, i - 1);
        assert(forall|j: int| 0 <= j < i - 1 ==> ps.skip(1)[j] == ps[j + 1]);
    }
}

/// The pattern matcher yields nothing exactly when no rule matches.
pub proof fn lemma_first_match_none(ps: Seq<PathConfig>, dir: Seq<char>)
    ensures
        first_match_spec(ps, dir) is None <==> forall|i: int|
            0 <= i < ps.len() ==> !rule_matches(ps[i], dir),
    decreases ps.len(),
{
    if ps.len() > 0 {
        lemma_first_match_none(ps.skip(1), dir);
        if !rule_matches(ps[0], dir) {
            assert(forall|i: int| 1 <= i < ps.len() ==> ps.skip(1)[i - 1] == #[trigger] ps[i]);
            assert(forall|i: int| 0 <= i < ps.len() - 1 ==> ps.skip(1)[i] == ps[i + 1]);
        }
    }
}

} // verus!
