//! Path text utilities for the directory matcher: the parent directory of a
//! registered file, component-wise path prefixes, and the ancestry rule that
//! makes a registered file active for a directory.
//!
//! Paths are handled as text; the matcher is meant for absolute,
//! canonicalized paths, as the allow-list stores them.

use vstd::prelude::*;
use vstd::string::*;

use crate::text::{rfind_c, rfind_char, str_eq_str, str_has_prefix};

verus! {

/// The parent directory of a path, as `Path::parent` gives it for
/// canonicalized paths: nothing for the root, the leading `/` for a file
/// directly under the root, the text before the last `/` otherwise, and the
/// empty text for a bare relative name.
pub open spec fn parent_spec(p: Seq<char>) -> Option<Seq<char>> {
    if p.len() == 1 && p[0] == '/' {
        None
    } else {
        let i = rfind_c(p, '/');
        if i == -1 {
            if p.len() == 0 {
                None
            } else {
                Some(Seq::empty())
            }
        } else if i == 0 {
            Some(seq!['/'])
        } else {
            Some(p.take(i))
        }
    }
}

/// The parent directory of a path.
pub fn parent_dir(p: &str) -> (r: Option<String>)
    ensures
        r is Some <==> parent_spec(p@) is Some,
        r matches Some(d) ==> parent_spec(p@) == Some(d@),
{
    let len = p.unicode_len();
    if len == 1 && p.get_char(0) == '/' {
        return None;
    }
    match rfind_char(p, '/') {
        Option::None => {
            if len == 0 {
                None
            } else {
                proof {
                    reveal_strlit("");
                    assert(""@ =~= Seq::<char>::empty());
                }
                Some(String::from_str(""))
            }
        },
        Option::Some(i) => {
            if i == 0 {
                let r = String::from_str("/");
                proof {
                    reveal_strlit("/");
                    assert(r@ =~= seq!['/']);
                }
                Some(r)
            } else {
                Some(p.substring_char(0, i).to_owned())
            }
        },
    }
}

/// Whether `anc` is a component-wise ancestor of, or equal to, `d`, as
/// `Path::starts_with` decides it for canonicalized paths: equality, the
/// root against any absolute path, a prefix that ends at a `/` boundary, or
/// an empty ancestor.
pub open spec fn is_path_prefix(anc: Seq<char>, d: Seq<char>) -> bool {
    ||| anc == d
    ||| anc.len() == 0
    ||| (anc.len() == 1 && anc[0] == '/' && d.len() >= 1 && d[0] == '/')
    ||| (anc.len() < d.len() && d.take(anc.len() as int) == anc && d[anc.len() as int] == '/')
}

/// Whether the directory `d` equals `anc` or lies beneath it.
pub fn path_starts_with(d: &str, anc: &str) -> (r: bool)
    ensures
        r == is_path_prefix(anc@, d@),
{
    let alen = anc.unicode_len();
    let dlen = d.unicode_len();
    if alen == 0 {
        return true;
    }
    if str_eq_str(anc, d) {
        return true;
    }
    if alen == 1 && anc.get_char(0) == '/' && dlen >= 1 && d.get_char(0) == '/' {
        return true;
    }
    alen < dlen && str_has_prefix(d, anc) && d.get_char(alen) == '/'
}

/// Whether a registered file is active for a directory: the directory equals
/// the file's parent directory or lies beneath it.
pub open spec fn file_active_spec(file: Seq<char>, dir: Seq<char>) -> bool {
    match parent_spec(file) {
        Some(parent) => is_path_prefix(parent, dir),
        None => false,
    }
}

/// Decides whether the environment file at `file` is active for `dir`.
pub fn file_active_for(file: &str, dir: &str) -> (r: bool)
    ensures
        r == file_active_spec(file@, dir@),
{
    match parent_dir(file) {
        Option::Some(parent) => path_starts_with(dir, parent.as_str()),
        Option::None => false,
    }
}

/// The text after the last `/`, or the whole path without one.
pub open spec fn basename_spec(p: Seq<char>) -> Seq<char> {
    let i = rfind_c(p, '/');
    if i == -1 {
        p
    } else {
        p.skip(i + 1)
    }
}

/// Whether the path names a `.envrc` file: its basename is exactly `.envrc`.
pub fn is_envrc_file(path: &str) -> (r: bool)
    ensures
        r == (basename_spec(path@) == ".envrc"@),
{
    let len = path.unicode_len();
    match rfind_char(path, '/') {
        Option::None => str_eq_str(path, ".envrc"),
        Option::Some(i) => {
            let base = path.substring_char(i + 1, len);
            proof {
                assert(path@.subrange(i + 1, len as int) =~= path@.skip(i + 1));
            }
            str_eq_str(base, ".envrc")
        },
    }
}

} // verus!
