//! The variable-line parser: one line of an environment-definition file
//! becomes a key/value pair, tolerating an optional `export ` prefix and
//! blank or comment lines.

use vstd::prelude::*;
use vstd::string::*;

use crate::text::{
    find_c, find_char, has_prefix, is_wspace, lemma_find_c_concat, lemma_find_c_props,
    lemma_ltrim_skip_ws, lemma_lws_props, lemma_rtrim_allws_right, lemma_rtrim_concat,
    lemma_rws_props, lines_from_text, lines_spec, ltrim_spec, lws_count, rtrim_spec, rws_bound,
    str_has_prefix, trim_of, trim_spec,
};

verus! {

/// The line body once an `export ` prefix, if present, is stripped.
pub open spec fn export_stripped(t: Seq<char>) -> Seq<char> {
    if has_prefix(t, "export "@) {
        t.skip("export "@.len() as int)
    } else {
        t
    }
}

/// What remains of a line body after the first `=`: the trimmed key and the
/// trimmed value, or nothing when the body holds no `=`.
pub open spec fn parse_tail(b: Seq<char>) -> Option<(Seq<char>, Seq<char>)> {
    let eq = find_c(b, '=');
    if eq == -1 {
        None
    } else {
        Some((trim_spec(b.take(eq)), trim_spec(b.skip(eq + 1))))
    }
}

/// The key/value pair a line denotes: the line is trimmed; blank lines and
/// comment lines yield nothing; an `export ` prefix is stripped; the rest is
/// split on the first `=`, and key and value are trimmed. A line with no `=`
/// yields nothing.
pub open spec fn parse_line_spec(l: Seq<char>) -> Option<(Seq<char>, Seq<char>)> {
    let t = trim_spec(l);
    if t.len() == 0 || t[0] == '#' {
        None
    } else {
        parse_tail(export_stripped(t))
    }
}

/// Splits an environment variable line into its key/value pair.
///
/// Accepts `KEY=value` and `export KEY=value`; blank lines, comment lines
/// and lines with no `=` yield `None`.
pub fn split_env_var(var: &str) -> (r: Option<(String, String)>)
    ensures
        r is Some <==> parse_line_spec(var@) is Some,
        r matches Some(kv) ==> parse_line_spec(var@) == Some((kv.0@, kv.1@)),
{
    let trimmed = trim_of(var);
    let ts: &str = trimmed.as_str();
    let tlen = ts.unicode_len();
    if tlen == 0 {
        return None;
    }
    if ts.get_char(0) == '#' {
        return None;
    }
    let body: String = if str_has_prefix(ts, "export ") {
        proof {
            reveal_strlit("export ");
        }
        ts.substring_char(7, tlen).to_owned()
    } else {
        ts.to_owned()
    };
    proof {
        assert(body@ == export_stripped(trim_spec(var@)));
    }
    let bs: &str = body.as_str();
    match find_char(bs, '=') {
        None => None,
        Some(eq) => {
            let blen = bs.unicode_len();
            let key = trim_of(bs.substring_char(0, eq));
            let value = trim_of(bs.substring_char(eq + 1, blen));
            proof {
                let b = body@;
                let e = find_c(b, '=');
                assert(b.subrange(0, eq as int) =~= b.take(e));
                assert(b.subrange(eq + 1, blen as int) =~= b.skip(e + 1));
            }
            Some((key, value))
        },
    }
}

/// A leading run of whitespace in the body does not change how the body
/// splits into a key and a value: the key is trimmed either way.
proof fn lemma_parse_tail_ws_prefix(b: Seq<char>, k: int)
    requires
        0 <= k <= b.len(),
        forall|j: int| 0 <= j < k ==> is_wspace(b[j]),
    ensures
        parse_tail(b) == parse_tail(b.skip(k)),
{
    let c = b.skip(k);
    let pre = b.take(k);
    assert(!is_wspace('='));
    assert(forall|j: int| 0 <= j < pre.len() ==> pre[j] != '=');
    assert(b =~= pre + c);
    lemma_find_c_concat(pre, c, '=');
    let e = find_c(c, '=');
    if e != -1 {
        lemma_find_c_props(c, '=');
        assert(find_c(b, '=') == k + e);
        // The keys agree: the extra whitespace is trimmed away.
        let kb = b.take(k + e);
        let kc = c.take(e);
        assert(forall|j: int| 0 <= j < k ==> is_wspace(kb[j]));
        lemma_ltrim_skip_ws(kb, k);
        assert(kb.skip(k) =~= kc);
        // The values agree outright.
        assert(b.skip(k + e + 1) =~= c.skip(e + 1));
    }
}

/// Stripping an `export ` prefix is a no-op on the parsed pair: for a line
/// that is not itself a comment and whose own content does not begin with
/// `export `, the line `export KEY=VALUE` parses exactly as `KEY=VALUE`.
pub proof fn lemma_export_prefix_noop(l: Seq<char>)
    requires
        !has_prefix(trim_spec(l), "export "@),
        trim_spec(l).len() > 0 ==> trim_spec(l)[0] != '#',
    ensures
        parse_line_spec("export "@ + l) == parse_line_spec(l),
{
    reveal_strlit("export ");
    let ep = "export "@;
    let lp = ep + l;
    assert(lp[0] == 'e');
    assert(!is_wspace('e'));
    assert(ltrim_spec(lp) == lp);
    lemma_rws_props(l);
    let m = rws_bound(l);
    if m == 0 {
        // The line is all whitespace: both forms parse to nothing.
        assert(forall|j: int| 0 <= j < l.len() ==> is_wspace(l[j]));
        lemma_rtrim_allws_right(ep, l);
        assert(trim_spec(lp) == rtrim_spec(ep));
        assert(ep.last() == ' ');
        assert(is_wspace(' '));
        let t1 = ep.drop_last();
        assert(rtrim_spec(ep) == rtrim_spec(t1));
        assert(t1.last() == 't');
        assert(!is_wspace('t'));
        assert(rtrim_spec(t1) == t1);
        assert(t1.len() == 6);
        assert(t1[0] == 'e');
        assert(!has_prefix(t1, ep));
        assert(forall|j: int| 0 <= j < t1.len() ==> t1[j] != '=');
        lemma_find_c_props(t1, '=');
        assert(find_c(t1, '=') == -1);
        assert(parse_line_spec(lp) is None);
        lemma_lws_props(l);
        assert(lws_count(l) == l.len());
        assert(ltrim_spec(l) =~= Seq::<char>::empty());
        assert(trim_spec(l).len() == 0);
        assert(parse_line_spec(l) is None);
    } else {
        // The trailing whitespace is trimmed either way; the leading
        // whitespace of the line survives the prefix strip and is then
        // swallowed by the key trim.
        lemma_rtrim_concat(ep, l);
        let tp = ep + rtrim_spec(l);
        assert(trim_spec(lp) == tp);
        assert(tp.len() >= 8);
        assert(tp[0] == 'e');
        assert(tp.take(7) =~= ep);
        assert(has_prefix(tp, ep));
        assert(export_stripped(tp) =~= l.take(m));
        lemma_lws_props(l);
        let k = lws_count(l);
        assert(k < m) by {
            if k >= m {
                assert(is_wspace(l[m - 1]));
            }
        }
        lemma_rws_props(l.skip(k));
        let t = trim_spec(l);
        assert(rws_bound(l.skip(k)) == m - k) by {
            let b2 = rws_bound(l.skip(k));
            assert(forall|j: int|
                0 <= j < l.len() - k ==> #[trigger] l.skip(k)[j] == l[j + k]);
            if b2 < m - k {
                assert(is_wspace(l.skip(k)[m - k - 1]));
                assert(!is_wspace(l[m - 1]));
            }
            if b2 > m - k {
                assert(!is_wspace(l.skip(k)[b2 - 1]));
                assert(is_wspace(l[b2 - 1 + k]));
            }
        }
        assert(t == l.skip(k).take(m - k));
        assert(t =~= l.subrange(k, m));
        assert(t.len() > 0);
        lemma_parse_tail_ws_prefix(l.take(m), k);
        assert(l.take(m).skip(k) =~= l.subrange(k, m));
        assert(parse_line_spec(lp) == parse_tail(l.take(m)));
        assert(parse_line_spec(l) == parse_tail(t));
    }
}

/// Blank lines, comment lines, and lines that hold no `=` at all, parse to
/// nothing.
pub proof fn lemma_parse_none(l: Seq<char>)
    requires
        trim_spec(l).len() == 0 || trim_spec(l)[0] == '#' || (forall|j: int|
            0 <= j < l.len() ==> l[j] != '='),
    ensures
        parse_line_spec(l) is None,
{
    let t = trim_spec(l);
    if t.len() == 0 || t[0] == '#' {
    } else {
        // No `=` anywhere in the line, hence none in the trimmed body.
        lemma_lws_props(l);
        let k = lws_count(l);
        lemma_rws_props(l.skip(k));
        let b2 = rws_bound(l.skip(k));
        assert(t == l.skip(k).take(b2));
        assert(forall|j: int| 0 <= j < t.len() ==> #[trigger] t[j] == l[j + k]);
        assert(forall|j: int| 0 <= j < t.len() ==> t[j] != '=');
        let body = export_stripped(t);
        assert(forall|j: int| 0 <= j < body.len() ==> body[j] != '=');
        lemma_find_c_props(body, '=');
        assert(find_c(body, '=') == -1);
    }
}

/// Whether a line survives the environment-file reader: lines whose trimmed
/// form begins with `#` are dropped, every other line is kept verbatim.
pub open spec fn keep_line(l: Seq<char>) -> bool {
    !(trim_spec(l).len() > 0 && trim_spec(l)[0] == '#')
}

/// The kept lines of a file, in file order.
pub open spec fn env_lines_spec(ls: Seq<Seq<char>>) -> Seq<Seq<char>>
    decreases ls.len(),
{
    if ls.len() == 0 {
        Seq::empty()
    } else if keep_line(ls[0]) {
        seq![ls[0]] + env_lines_spec(ls.skip(1))
    } else {
        env_lines_spec(ls.skip(1))
    }
}

/// Reads the text of an environment-definition file into its raw variable
/// lines: comment lines are dropped, all other lines are kept verbatim in
/// file order.
pub fn env_lines_from_text(text: &str) -> (r: Vec<String>)
    ensures
        r.deep_view() == env_lines_spec(lines_spec(text@)),
{
    let lines = lines_from_text(text);
    let n = lines.len();
    let mut r: Vec<String> = Vec::new();
    let ghost all = lines.deep_view();
    proof {
        assert(r.deep_view() =~= Seq::<Seq<char>>::empty());
        assert(all.skip(0) =~= all);
        assert(Seq::<Seq<char>>::empty() + env_lines_spec(all) =~= env_lines_spec(all));
    }
    let mut idx: usize = 0;
    while idx < n
        invariant
            idx <= n,
            n == lines.len(),
            all == lines.deep_view(),
            env_lines_spec(all) == r.deep_view() + env_lines_spec(all.skip(idx as int)),
        decreases n - idx,
    {
        let ghost prev = r.deep_view();
        let ghost tail = all.skip(idx as int);
        proof {
            assert(tail[0] == all[idx as int]);
            assert(tail.skip(1) =~= all.skip(idx + 1));
        }
        let line: &String = &lines[idx];
        proof {
            assert(line@ == all[idx as int]);
        }
        let t = trim_of(line.as_str());
        let keep = t.as_str().unicode_len() == 0 || t.as_str().get_char(0) != '#';
        if keep {
            r.push(line.clone());
            proof {
                assert(r.deep_view() =~= prev.push(line@));
                assert(env_lines_spec(tail) == seq![all[idx as int]] + env_lines_spec(
                    all.skip(idx + 1),
                ));
                assert(r.deep_view() + env_lines_spec(all.skip(idx + 1)) =~= prev
                    + env_lines_spec(tail));
            }
        }
        idx = idx + 1;
    }
    proof {
        assert(env_lines_spec(all.skip(idx as int)) =~= Seq::<Seq<char>>::empty());
        assert(r.deep_view() + env_lines_spec(all.skip(idx as int)) =~= r.deep_view());
    }
    r
}

} // verus!
