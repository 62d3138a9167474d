//! An ordered key/value mapping of environment variables with unique keys,
//! viewed in contracts as a mathematical `Map`.

use vstd::prelude::*;
use vstd::string::*;

use crate::text::str_eq_str;

verus! {

broadcast use vstd::set::axiom_set_insert_len;

/// One environment variable: a key and its value.
#[derive(Debug)]
pub struct EnvVar {
    pub key: String,
    pub value: String,
}

/// The mapping a run of entries denotes: a later entry for a key overwrites
/// an earlier one.
pub open spec fn entries_map(s: Seq<EnvVar>) -> Map<Seq<char>, Seq<char>>
    decreases s.len(),
{
    if s.len() == 0 {
        Map::empty()
    } else {
        entries_map(s.drop_last()).insert(s.last().key@, s.last().value@)
    }
}

/// No two entries share a key.
pub open spec fn unique_keys(s: Seq<EnvVar>) -> bool {
    forall|i: int, j: int| 0 <= i < j < s.len() ==> s[i].key@ != s[j].key@
}

proof fn lemma_entries_map_contains(s: Seq<EnvVar>, k: Seq<char>)
    ensures
        entries_map(s).contains_key(k) <==> exists|i: int| 0 <= i < s.len() && s[i].key@ == k,
    decreases s.len(),
{
    if s.len() > 0 {
        lemma_entries_map_contains(s.drop_last(), k);
        if s.last().key@ == k {
            assert(s[s.len() - 1].key@ == k);
        } else if entries_map(s).contains_key(k) {
            let i = choose|i: int| 0 <= i < s.len() - 1 && s.drop_last()[i].key@ == k;
            assert(s[i].key@ == k);
        } else {
            assert(forall|i: int| 0 <= i < s.len() - 1 ==> s.drop_last()[i].key@ == #[trigger] s[i].key@);
        }
    }
}

proof fn lemma_entries_map_get(s: Seq<EnvVar>, i: int)
    requires
        unique_keys(s),
        0 <= i < s.len(),
    ensures
        entries_map(s).contains_key(s[i].key@),
        entries_map(s)[s[i].key@] == s[i].value@,
    decreases s.len(),
{
    lemma_entries_map_contains(s, s[i].key@);
    if i < s.len() - 1 {
        assert(s.drop_last()[i] == s[i]);
        lemma_entries_map_get(s.drop_last(), i);
    }
}

proof fn lemma_entries_map_dom_len(s: Seq<EnvVar>)
    requires
        unique_keys(s),
    ensures
        entries_map(s).dom().len() == s.len(),
        entries_map(s).dom().finite(),
    decreases s.len(),
{
    if s.len() > 0 {
        lemma_entries_map_dom_len(s.drop_last());
        lemma_entries_map_contains(s.drop_last(), s.last().key@);
        assert(forall|i: int| 0 <= i < s.len() - 1 ==> s.drop_last()[i] == #[trigger] s[i]);
        assert(!entries_map(s.drop_last()).contains_key(s.last().key@));
        assert(entries_map(s).dom() =~= entries_map(s.drop_last()).dom().insert(s.last().key@));
    }
}

proof fn lemma_entries_map_update(s: Seq<EnvVar>, i: int, e: EnvVar)
    requires
        unique_keys(s),
        0 <= i < s.len(),
        s[i].key@ == e.key@,
    ensures
        entries_map(s.update(i, e)) == entries_map(s).insert(e.key@, e.value@),
    decreases s.len(),
{
    if i == s.len() - 1 {
        assert(s.update(i, e).drop_last() =~= s.drop_last());
        assert(s.update(i, e).last() == e);
        assert(entries_map(s.drop_last()).insert(s.last().key@, s.last().value@).insert(
            e.key@,
            e.value@,
        ) =~= entries_map(s.drop_last()).insert(e.key@, e.value@));
    } else {
        assert(s.update(i, e).drop_last() =~= s.drop_last().update(i, e));
        assert(s.update(i, e).last() == s.last());
        assert(forall|x: int| 0 <= x < s.len() - 1 ==> s.drop_last()[x] == #[trigger] s[x]);
        lemma_entries_map_update(s.drop_last(), i, e);
        assert(s.last().key@ != e.key@);
        assert(entries_map(s.drop_last()).insert(e.key@, e.value@).insert(
            s.last().key@,
            s.last().value@,
        ) =~= entries_map(s.drop_last()).insert(s.last().key@, s.last().value@).insert(
            e.key@,
            e.value@,
        ));
    }
}

/// The variables a script set, keyed by name. Entries keep first-insertion
/// order; a later insert for a present key overwrites the value in place.
#[derive(Debug)]
pub struct EnvMap {
    entries: Vec<EnvVar>,
}

impl EnvMap {
    /// The mapping held.
    pub closed spec fn as_map(self) -> Map<Seq<char>, Seq<char>> {
        entries_map(self.entries@)
    }

    /// Entries hold pairwise distinct keys.
    pub closed spec fn wf(self) -> bool {
        unique_keys(self.entries@)
    }

    /// The entries in order, as key/value character sequences.
    pub closed spec fn entries_seq(self) -> Seq<(Seq<char>, Seq<char>)> {
        Seq::new(self.entries@.len(), |i: int| (self.entries@[i].key@, self.entries@[i].value@))
    }

    /// An empty mapping.
    pub fn new() -> (r: Self)
        ensures
            r.wf(),
            r.as_map() == Map::<Seq<char>, Seq<char>>::empty(),
            r.entries_seq() == Seq::<(Seq<char>, Seq<char>)>::empty(),
    {
        let r = EnvMap { entries: Vec::new() };
        proof {
            assert(r.entries_seq() =~= Seq::<(Seq<char>, Seq<char>)>::empty());
        }
        r
    }

    /// How many variables are held.
    pub fn len(&self) -> (r: usize)
        requires
            self.wf(),
        ensures
            r == self.as_map().dom().len(),
            r == self.entries_seq().len(),
    {
        proof {
            lemma_entries_map_dom_len(self.entries@);
        }
        self.entries.len()
    }

    /// Whether nothing is held.
    pub fn is_empty(&self) -> (r: bool)
        requires
            self.wf(),
        ensures
            r == (self.as_map() =~= Map::<Seq<char>, Seq<char>>::empty()),
    {
        proof {
            lemma_entries_map_dom_len(self.entries@);
            if self.entries@.len() > 0 {
                lemma_entries_map_get(self.entries@, 0);
            }
        }
        self.entries.len() == 0
    }

    /// Sets `key` to `value`: overwrites the value of a present key, appends
    /// a new entry otherwise.
    pub fn insert(&mut self, key: String, value: String)
        requires
            old(self).wf(),
        ensures
            final(self).wf(),
            final(self).as_map() == old(self).as_map().insert(key@, value@),
    {
        let n = self.entries.len();
        let mut i: usize = 0;
        while i < n && !str_eq_str(self.entries[i].key.as_str(), key.as_str())
            invariant
                i <= n,
                n == self.entries.len(),
                forall|j: int| 0 <= j < i ==> self.entries@[j].key@ != key@,
            decreases n - i,
        {
            i = i + 1;
        }
        if i < n {
            let ghost prev = self.entries@;
            let e = EnvVar { key, value };
            proof {
                assert(prev[i as int].key@ == e.key@);
            }
            self.entries.set(i, e);
            proof {
                lemma_entries_map_update(prev, i as int, e);
                assert(unique_keys(self.entries@));
            }
        } else {
            let ghost prev = self.entries@;
            self.entries.push(EnvVar { key, value });
            proof {
                assert(self.entries@.drop_last() =~= prev);
                assert(unique_keys(self.entries@));
            }
        }
    }

    /// Looks a key up and hands its value back.
    pub fn get(&self, key: &str) -> (r: Option<String>)
        requires
            self.wf(),
        ensures
            r is Some <==> self.as_map().contains_key(key@),
            r matches Some(v) ==> v@ == self.as_map()[key@],
    {
        let n = self.entries.len();
        let mut i: usize = 0;
        while i < n && !str_eq_str(self.entries[i].key.as_str(), key)
            invariant
                i <= n,
                n == self.entries.len(),
                forall|j: int| 0 <= j < i ==> self.entries@[j].key@ != key@,
            decreases n - i,
        {
            i = i + 1;
        }
        if i < n {
            proof {
                lemma_entries_map_get(self.entries@, i as int);
            }
            Some(self.entries[i].value.clone())
        } else {
            proof {
                lemma_entries_map_contains(self.entries@, key@);
            }
            None
        }
    }

    /// The variables as `KEY=value` lines, in entry order.
    pub fn to_lines(&self) -> (r: Vec<String>)
        ensures
            r.deep_view().len() == self.entries_seq().len(),
            forall|i: int|
                0 <= i < r.deep_view().len() ==> r.deep_view()[i] == self.entries_seq()[i].0 + "="@
                    + self.entries_seq()[i].1,
    {
        let n = self.entries.len();
        let mut r: Vec<String> = Vec::new();
        let mut i: usize = 0;
        while i < n
            invariant
                i <= n,
                n == self.entries.len(),
                r.deep_view().len() == i,
                forall|j: int|
                    0 <= j < i ==> r.deep_view()[j] == self.entries@[j].key@ + "="@
                        + self.entries@[j].value@,
            decreases n - i,
        {
            let ghost prev = r.deep_view();
            let line = self.entries[i].key.clone().concat("=").concat(
                self.entries[i].value.as_str(),
            );
            r.push(line);
            proof {
                assert(r.deep_view() =~= prev.push(line@));
            }
            i = i + 1;
        }
        r
    }
}

} // verus!
