//! Character-level text utilities: whitespace trimming, character search,
//! prefix tests and line splitting, with exact sequence-level specifications.

use vstd::prelude::*;
use vstd::string::*;

verus! {

/// The Unicode `White_Space` characters, as `char::is_whitespace` accepts them.
pub open spec fn is_wspace(c: char) -> bool {
    ||| c == ' '
    ||| c == '\t'
    ||| c == '\n'
    ||| c == '\r'
    ||| c == '\u{b}'
    ||| c == '\u{c}'
    ||| c == '\u{85}'
    ||| c == '\u{a0}'
    ||| c == '\u{1680}'
    ||| (0x2000 <= c as u32 && c as u32 <= 0x200a)
    ||| c == '\u{2028}'
    ||| c == '\u{2029}'
    ||| c == '\u{202f}'
    ||| c == '\u{205f}'
    ||| c == '\u{3000}'
}

pub fn char_is_wspace(c: char) -> (r: bool)
    ensures
        r == is_wspace(c),
{
    c == ' ' || c == '\t' || c == '\n' || c == '\r' || c == '\u{b}' || c == '\u{c}'
        || c == '\u{85}' || c == '\u{a0}' || c == '\u{1680}'
        || (0x2000 <= c as u32 && c as u32 <= 0x200a) || c == '\u{2028}' || c == '\u{2029}'
        || c == '\u{202f}' || c == '\u{205f}' || c == '\u{3000}'
}

/// The text with leading whitespace removed.
pub open spec fn ltrim_spec(s: Seq<char>) -> Seq<char>
    decreases s.len(),
{
    if s.len() == 0 {
        s
    } else if is_wspace(s[0]) {
        ltrim_spec(s.skip(1))
    } else {
        s
    }
}

/// The text with trailing whitespace removed.
pub open spec fn rtrim_spec(s: Seq<char>) -> Seq<char>
    decreases s.len(),
{
    if s.len() == 0 {
        s
    } else if is_wspace(s.last()) {
        rtrim_spec(s.drop_last())
    } else {
        s
    }
}

/// The text with leading and trailing whitespace removed.
pub open spec fn trim_spec(s: Seq<char>) -> Seq<char> {
    rtrim_spec(ltrim_spec(s))
}

proof fn lemma_ltrim_skip(s: Seq<char>, i: int)
    requires
        0 <= i <= s.len(),
        forall|j: int| 0 <= j < i ==> is_wspace(s[j]),
        i < s.len() ==> !is_wspace(s[i]),
    ensures
        ltrim_spec(s) == s.skip(i),
    decreases i,
{
    if i == 0 {
        assert(s.skip(0) =~= s);
    } else {
        lemma_ltrim_skip(s.skip(1), i - 1);
        assert(s.skip(1).skip(i - 1) =~= s.skip(i));
    }
}

proof fn lemma_rtrim_take(s: Seq<char>, e: int)
    requires
        0 <= e <= s.len(),
        forall|j: int| e <= j < s.len() ==> is_wspace(s[j]),
        e > 0 ==> !is_wspace(s[e - 1]),
    ensures
        rtrim_spec(s) == s.take(e),
    decreases s.len(),
{
    if e == s.len() {
        assert(s.take(e) =~= s);
    } else {
        lemma_rtrim_take(s.drop_last(), e);
        assert(s.drop_last().take(e) =~= s.take(e));
    }
}

/// How many whitespace characters lead the text.
pub open spec fn lws_count(s: Seq<char>) -> int
    decreases s.len(),
{
    if s.len() == 0 || !is_wspace(s[0]) {
        0
    } else {
        1 + lws_count(s.skip(1))
    }
}

/// Where the trailing whitespace of the text begins.
pub open spec fn rws_bound(s: Seq<char>) -> int
    decreases s.len(),
{
    if s.len() == 0 || !is_wspace(s.last()) {
        s.len() as int
    } else {
        rws_bound(s.drop_last())
    }
}

pub proof fn lemma_lws_props(s: Seq<char>)
    ensures
        0 <= lws_count(s) <= s.len(),
        forall|j: int| 0 <= j < lws_count(s) ==> is_wspace(s[j]),
        lws_count(s) < s.len() ==> !is_wspace(s[lws_count(s)]),
        ltrim_spec(s) == s.skip(lws_count(s)),
    decreases s.len(),
{
    if s.len() == 0 || !is_wspace(s[0]) {
        assert(s.skip(0) =~= s);
    } else {
        lemma_lws_props(s.skip(1));
        assert(s.skip(1).skip(lws_count(s.skip(1))) =~= s.skip(1 + lws_count(s.skip(1))));
        assert(forall|j: int|
            1 <= j < lws_count(s) ==> is_wspace(#[trigger] s[j]) == is_wspace(s.skip(1)[j - 1]));
    }
}

pub proof fn lemma_rws_props(s: Seq<char>)
    ensures
        0 <= rws_bound(s) <= s.len(),
        forall|j: int| rws_bound(s) <= j < s.len() ==> is_wspace(s[j]),
        rws_bound(s) > 0 ==> !is_wspace(s[rws_bound(s) - 1]),
        rtrim_spec(s) == s.take(rws_bound(s)),
    decreases s.len(),
{
    if s.len() == 0 || !is_wspace(s.last()) {
        assert(s.take(s.len() as int) =~= s);
    } else {
        lemma_rws_props(s.drop_last());
        assert(s.drop_last().take(rws_bound(s.drop_last())) =~= s.take(rws_bound(s.drop_last())));
        assert(forall|j: int|
            rws_bound(s) <= j < s.len() - 1 ==> is_wspace(#[trigger] s[j]) == is_wspace(
                s.drop_last()[j],
            ));
    }
}

/// Dropping a leading run of whitespace does not change the left-trimmed text.
pub proof fn lemma_ltrim_skip_ws(s: Seq<char>, k: int)
    requires
        0 <= k <= s.len(),
        forall|j: int| 0 <= j < k ==> is_wspace(s[j]),
    ensures
        ltrim_spec(s) == ltrim_spec(s.skip(k)),
    decreases k,
{
    if k == 0 {
        assert(s.skip(0) =~= s);
    } else {
        lemma_ltrim_skip_ws(s.skip(1), k - 1);
        assert(s.skip(1).skip(k - 1) =~= s.skip(k));
    }
}

/// Right-trimming a concatenation only touches its right part, as long as
/// that part does not trim away entirely.
pub proof fn lemma_rtrim_concat(a: Seq<char>, b: Seq<char>)
    requires
        rtrim_spec(b).len() > 0,
    ensures
        rtrim_spec(a + b) == a + rtrim_spec(b),
    decreases b.len(),
{
    if b.len() == 0 {
        assert(rtrim_spec(b) =~= b);
    } else if is_wspace(b.last()) {
        lemma_rtrim_concat(a, b.drop_last());
        assert((a + b).last() == b.last());
        assert((a + b).drop_last() =~= a + b.drop_last());
    } else {
        assert((a + b).last() == b.last());
    }
}

/// A whitespace-only right part vanishes under right trimming.
pub proof fn lemma_rtrim_allws_right(a: Seq<char>, b: Seq<char>)
    requires
        forall|j: int| 0 <= j < b.len() ==> is_wspace(b[j]),
    ensures
        rtrim_spec(a + b) == rtrim_spec(a),
    decreases b.len(),
{
    if b.len() == 0 {
        assert(a + b =~= a);
    } else {
        assert((a + b).last() == b.last());
        assert((a + b).drop_last() =~= a + b.drop_last());
        lemma_rtrim_allws_right(a, b.drop_last());
    }
}

pub proof fn lemma_find_c_props(s: Seq<char>, c: char)
    ensures
        find_c(s, c) == -1 ==> forall|j: int| 0 <= j < s.len() ==> s[j] != c,
        find_c(s, c) != -1 ==> 0 <= find_c(s, c) < s.len() && s[find_c(s, c)] == c,
        find_c(s, c) != -1 ==> forall|j: int| 0 <= j < find_c(s, c) ==> s[j] != c,
    decreases s.len(),
{
    if s.len() > 0 && s[0] != c {
        lemma_find_c_props(s.skip(1), c);
        assert(forall|j: int| 1 <= j < s.len() ==> #[trigger] s[j] == s.skip(1)[j - 1]);
    }
}

/// Searching a concatenation whose left part misses the character lands in
/// the right part.
pub proof fn lemma_find_c_concat(a: Seq<char>, b: Seq<char>, c: char)
    requires
        forall|j: int| 0 <= j < a.len() ==> a[j] != c,
    ensures
        find_c(a + b, c) == if find_c(b, c) == -1 {
            -1
        } else {
            a.len() + find_c(b, c)
        },
    decreases a.len(),
{
    if a.len() == 0 {
        assert(a + b =~= b);
    } else {
        assert((a + b)[0] == a[0]);
        assert((a + b).skip(1) =~= a.skip(1) + b);
        lemma_find_c_concat(a.skip(1), b, c);
        lemma_find_c_props(b, c);
    }
}

/// Removes leading and trailing whitespace, as `str::trim` does.
pub fn trim_of(s: &str) -> (r: String)
    ensures
        r@ == trim_spec(s@),
{
    let len = s.unicode_len();
    let mut start: usize = 0;
    while start < len && char_is_wspace(s.get_char(start))
        invariant
            start <= len,
            len == s@.len(),
            forall|j: int| 0 <= j < start ==> is_wspace(s@[j]),
        decreases len - start,
    {
        start = start + 1;
    }
    let mut end: usize = len;
    while end > start && char_is_wspace(s.get_char(end - 1))
        invariant
            start <= end <= len,
            len == s@.len(),
            forall|j: int| end <= j < len ==> is_wspace(s@[j]),
        decreases end,
    {
        end = end - 1;
    }
    let r = s.substring_char(start, end).to_owned();
    proof {
        lemma_ltrim_skip(s@, start as int);
        let tail = s@.skip(start as int);
        assert(forall|j: int|
            end - start <= j < tail.len() ==> is_wspace(#[trigger] tail[j])) by {
            assert(forall|j: int|
                end - start <= j < tail.len() ==> #[trigger] tail[j] == s@[j + start]);
        }
        lemma_rtrim_take(tail, end - start);
        assert(tail.take(end - start) =~= s@.subrange(start as int, end as int));
    }
    r
}

/// Index of the first occurrence of `c` in `s`, or `-1` if absent.
pub open spec fn find_c(s: Seq<char>, c: char) -> int
    decreases s.len(),
{
    if s.len() == 0 {
        -1
    } else if s[0] == c {
        0
    } else {
        let r = find_c(s.skip(1), c);
        if r == -1 {
            -1
        } else {
            r + 1
        }
    }
}

proof fn lemma_find_c_at(s: Seq<char>, c: char, i: int)
    requires
        0 <= i < s.len(),
        s[i] == c,
        forall|j: int| 0 <= j < i ==> s[j] != c,
    ensures
        find_c(s, c) == i,
    decreases i,
{
    if i > 0 {
        lemma_find_c_at(s.skip(1), c, i - 1);
    }
}

proof fn lemma_find_c_none(s: Seq<char>, c: char)
    requires
        forall|j: int| 0 <= j < s.len() ==> s[j] != c,
    ensures
        find_c(s, c) == -1,
    decreases s.len(),
{
    if s.len() > 0 {
        lemma_find_c_none(s.skip(1), c);
    }
}

/// Index of the first occurrence of `c` in `s`, if any.
pub fn find_char(s: &str, c: char) -> (r: Option<usize>)
    ensures
        r is None <==> find_c(s@, c) == -1,
        r matches Some(i) ==> i as int == find_c(s@, c) && i < s@.len() && s@[i as int] == c,
{
    let len = s.unicode_len();
    let mut i: usize = 0;
    while i < len && s.get_char(i) != c
        invariant
            i <= len,
            len == s@.len(),
            forall|j: int| 0 <= j < i ==> s@[j] != c,
        decreases len - i,
    {
        i = i + 1;
    }
    if i == len {
        proof {
            lemma_find_c_none(s@, c);
        }
        None
    } else {
        proof {
            lemma_find_c_at(s@, c, i as int);
        }
        Some(i)
    }
}

/// Index of the last occurrence of `c` in `s`, or `-1` if absent.
pub open spec fn rfind_c(s: Seq<char>, c: char) -> int
    decreases s.len(),
{
    if s.len() == 0 {
        -1
    } else if s.last() == c {
        s.len() - 1
    } else {
        rfind_c(s.drop_last(), c)
    }
}

proof fn lemma_rfind_c_at(s: Seq<char>, c: char, i: int)
    requires
        0 <= i < s.len(),
        s[i] == c,
        forall|j: int| i < j < s.len() ==> s[j] != c,
    ensures
        rfind_c(s, c) == i,
    decreases s.len(),
{
    if i < s.len() - 1 {
        lemma_rfind_c_at(s.drop_last(), c, i);
    }
}

proof fn lemma_rfind_c_none(s: Seq<char>, c: char)
    requires
        forall|j: int| 0 <= j < s.len() ==> s[j] != c,
    ensures
        rfind_c(s, c) == -1,
    decreases s.len(),
{
    if s.len() > 0 {
        lemma_rfind_c_none(s.drop_last(), c);
    }
}

/// Index of the last occurrence of `c` in `s`, if any.
pub fn rfind_char(s: &str, c: char) -> (r: Option<usize>)
    ensures
        r is None <==> rfind_c(s@, c) == -1,
        r matches Some(i) ==> i as int == rfind_c(s@, c) && i < s@.len() && s@[i as int] == c,
{
    let len = s.unicode_len();
    let mut i: usize = len;
    while i > 0 && s.get_char(i - 1) != c
        invariant
            i <= len,
            len == s@.len(),
            forall|j: int| i <= j < len ==> s@[j] != c,
        decreases i,
    {
        i = i - 1;
    }
    if i == 0 {
        proof {
            lemma_rfind_c_none(s@, c);
        }
        None
    } else {
        proof {
            lemma_rfind_c_at(s@, c, i - 1);
        }
        Some(i - 1)
    }
}

/// Whether `p` is a leading segment of `s`.
pub open spec fn has_prefix(s: Seq<char>, p: Seq<char>) -> bool {
    s.len() >= p.len() && s.take(p.len() as int) == p
}

pub fn str_has_prefix(s: &str, p: &str) -> (r: bool)
    ensures
        r == has_prefix(s@, p@),
{
    let slen = s.unicode_len();
    let plen = p.unicode_len();
    if slen < plen {
        return false;
    }
    let mut i: usize = 0;
    while i < plen && s.get_char(i) == p.get_char(i)
        invariant
            i <= plen <= slen,
            slen == s@.len(),
            plen == p@.len(),
            forall|j: int| 0 <= j < i ==> s@[j] == p@[j],
        decreases plen - i,
    {
        i = i + 1;
    }
    if i == plen {
        proof {
            assert(s@.take(p@.len() as int) =~= p@);
        }
        true
    } else {
        proof {
            assert(s@.take(p@.len() as int)[i as int] == s@[i as int]);
        }
        false
    }
}

/// Whether two pieces of text hold the same characters.
pub fn str_eq_str(a: &str, b: &str) -> (r: bool)
    ensures
        r == (a@ == b@),
{
    let alen = a.unicode_len();
    let blen = b.unicode_len();
    if alen != blen {
        return false;
    }
    let mut i: usize = 0;
    while i < alen && a.get_char(i) == b.get_char(i)
        invariant
            i <= alen,
            alen == a@.len(),
            alen == b@.len(),
            forall|j: int| 0 <= j < i ==> a@[j] == b@[j],
        decreases alen - i,
    {
        i = i + 1;
    }
    if i == alen {
        proof {
            assert(a@ =~= b@);
        }
        true
    } else {
        false
    }
}

/// A line as `str::lines` yields it: a terminating carriage return that
/// preceded the line feed is dropped.
pub open spec fn drop_cr(t: Seq<char>) -> Seq<char> {
    if t.len() > 0 && t.last() == '\r' {
        t.drop_last()
    } else {
        t
    }
}

proof fn lemma_find_c_bounds(s: Seq<char>, c: char)
    ensures
        find_c(s, c) == -1 || (0 <= find_c(s, c) < s.len()),
    decreases s.len(),
{
    if s.len() > 0 && s[0] != c {
        lemma_find_c_bounds(s.skip(1), c);
    }
}

/// The lines of `s`, split at line feeds, as `str::lines` yields them:
/// a carriage return before the line feed is dropped, and a final line
/// ending produces no empty last line.
pub open spec fn lines_spec(s: Seq<char>) -> Seq<Seq<char>>
    decreases s.len(),
    via lines_spec_decreases
{
    if s.len() == 0 {
        Seq::empty()
    } else {
        let i = find_c(s, '\n');
        if i == -1 {
            seq![s]
        } else {
            seq![drop_cr(s.take(i))] + lines_spec(s.skip(i + 1))
        }
    }
}

#[via_fn]
proof fn lines_spec_decreases(s: Seq<char>) {
    lemma_find_c_bounds(s, '\n');
}

/// Splits text into its lines.
pub fn lines_from_text(s: &str) -> (r: Vec<String>)
    ensures
        r.deep_view() == lines_spec(s@),
{
    let len = s.unicode_len();
    let mut r: Vec<String> = Vec::new();
    let mut pos: usize = 0;
    proof {
        assert(r.deep_view() =~= Seq::<Seq<char>>::empty());
        assert(s@.skip(0) =~= s@);
        assert(Seq::<Seq<char>>::empty() + lines_spec(s@) =~= lines_spec(s@));
    }
    while pos < len
        invariant
            pos <= len,
            len == s@.len(),
            lines_spec(s@) == r.deep_view() + lines_spec(s@.skip(pos as int)),
        decreases len - pos,
    {
        let ghost prev = r.deep_view();
        let ghost tail = s@.skip(pos as int);
        let mut i: usize = pos;
        while i < len && s.get_char(i) != '\n'
            invariant
                pos <= i <= len,
                len == s@.len(),
                forall|j: int| pos <= j < i ==> s@[j] != '\n',
            decreases len - i,
        {
            i = i + 1;
        }
        if i == len {
            let frag = s.substring_char(pos, len).to_owned();
            r.push(frag);
            proof {
                assert(forall|j: int|
                    0 <= j < tail.len() ==> #[trigger] tail[j] == s@[j + pos]);
                lemma_find_c_none(tail, '\n');
                assert(tail =~= s@.subrange(pos as int, len as int));
                assert(r.deep_view() =~= prev + lines_spec(tail));
            }
            pos = len;
            proof {
                assert(lines_spec(s@.skip(pos as int)) =~= Seq::<Seq<char>>::empty());
                assert(r.deep_view() + lines_spec(s@.skip(pos as int)) =~= r.deep_view());
            }
        } else {
            let line_end = if i > pos && s.get_char(i - 1) == '\r' {
                i - 1
            } else {
                i
            };
            let line = s.substring_char(pos, line_end).to_owned();
            r.push(line);
            proof {
                assert(forall|j: int|
                    0 <= j < tail.len() ==> #[trigger] tail[j] == s@[j + pos]);
                lemma_find_c_at(tail, '\n', i - pos);
                assert(tail.take(i - pos) =~= s@.subrange(pos as int, i as int));
                assert(drop_cr(tail.take(i - pos)) =~= s@.subrange(
                    pos as int,
                    line_end as int,
                ));
                assert(tail.skip(i - pos + 1) =~= s@.skip(i + 1));
                assert(lines_spec(tail) == seq![line@] + lines_spec(s@.skip(i + 1)));
                assert(r.deep_view() =~= prev.push(line@));
                assert(r.deep_view() + lines_spec(s@.skip(i + 1)) =~= prev + lines_spec(tail));
            }
            pos = i + 1;
        }
    }
    proof {
        assert(lines_spec(s@.skip(pos as int)) =~= Seq::<Seq<char>>::empty());
        assert(r.deep_view() + lines_spec(s@.skip(pos as int)) =~= r.deep_view());
    }
    r
}

} // verus!
