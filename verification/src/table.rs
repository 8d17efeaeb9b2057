use vstd::prelude::*;

use crate::value::{distinct_keys, entries_model, entries_wf, value_model, value_wf, TextValue, ValueModel};

verus! {

/// Whether an association sequence holds an entry under the given key.
pub open spec fn seq_has_key<T>(s: Seq<(Seq<char>, T)>, k: Seq<char>) -> bool {
    exists|i: int| 0 <= i < s.len() && s[i].0 == k
}

/// The first entry under the given key, if any.
pub open spec fn seq_lookup<T>(s: Seq<(Seq<char>, T)>, k: Seq<char>) -> Option<T>
    decreases s.len(),
{
    if s.len() == 0 {
        None
    } else if s[0].0 == k {
        Some(s[0].1)
    } else {
        seq_lookup(s.drop_first(), k)
    }
}

pub proof fn lemma_seq_lookup_some<T>(s: Seq<(Seq<char>, T)>, k: Seq<char>)
    ensures
        seq_has_key(s, k) <==> seq_lookup(s, k) is Some,
        seq_lookup(s, k) matches Some(t) ==> exists|i: int|
            0 <= i < s.len() && s[i].0 == k && s[i].1 == t,
    decreases s.len(),
{
    if s.len() > 0 && s[0].0 != k {
        lemma_seq_lookup_some(s.drop_first(), k);
        assert forall|i: int| 0 <= i < s.len() && s[i].0 == k implies seq_has_key(
            s.drop_first(),
            k,
        ) by {
            assert(s.drop_first()[i - 1] == s[i]);
        }
        if seq_lookup(s.drop_first(), k) is Some {
            let t = seq_lookup(s.drop_first(), k)->Some_0;
            let i = choose|i: int|
                0 <= i < s.drop_first().len() && s.drop_first()[i].0 == k && s.drop_first()[i].1
                    == t;
            assert(s[i + 1] == s.drop_first()[i]);
        }
    }
}

/// Under distinct keys, looking a key up finds exactly the entry that holds it.
pub proof fn lemma_seq_lookup_at<T>(s: Seq<(Seq<char>, T)>, i: int)
    requires
        distinct_keys(s),
        0 <= i < s.len(),
    ensures
        seq_lookup(s, s[i].0) == Some(s[i].1),
    decreases s.len(),
{
    if i > 0 {
        assert(s.drop_first()[i - 1] == s[i]);
        assert(distinct_keys(s.drop_first())) by {
            assert forall|p: int, q: int|
                0 <= p < q < s.drop_first().len() implies s.drop_first()[p].0
                != s.drop_first()[q].0 by {
                assert(s.drop_first()[p] == s[p + 1]);
                assert(s.drop_first()[q] == s[q + 1]);
            }
        }
        lemma_seq_lookup_at(s.drop_first(), i - 1);
    }
}

/// No overwriting by later adds: appending an entry leaves what every key
/// already present maps to unchanged, so a key keeps the contents it was
/// first given, whatever is added afterwards.
pub proof fn lemma_lookup_after_push<T>(
    m: Seq<(Seq<char>, T)>,
    key: Seq<char>,
    t: T,
    loc: Seq<char>,
)
    requires
        seq_has_key(m, loc),
    ensures
        seq_lookup(m.push((key, t)), loc) == seq_lookup(m, loc),
        seq_has_key(m.push((key, t)), loc),
    decreases m.len(),
{
    let p = m.push((key, t));
    let i = choose|i: int| 0 <= i < m.len() && m[i].0 == loc;
    assert(p[i] == m[i]);
    if m[0].0 == loc {
        assert(p[0] == m[0]);
    } else {
        assert(p.drop_first() =~= m.drop_first().push((key, t)));
        assert(seq_has_key(m.drop_first(), loc)) by {
            assert(m.drop_first()[i - 1] == m[i]);
        }
        lemma_lookup_after_push(m.drop_first(), key, t, loc);
        assert(p[0] == m[0]);
    }
}

/// The model of a vector of entries, index by index.
pub proof fn lemma_entries_model(e: Seq<(String, TextValue)>)
    ensures
        entries_model(e).len() == e.len(),
        forall|i: int| 0 <= i < e.len() ==> entries_model(e)[i] == (e[i].0@, value_model(e[i].1)),
    decreases e.len(),
{
    if e.len() > 0 {
        lemma_entries_model(e.drop_first());
        assert forall|i: int| 0 <= i < e.len() implies entries_model(e)[i] == (
            e[i].0@,
            value_model(e[i].1),
        ) by {
            if i > 0 {
                assert(e.drop_first()[i - 1] == e[i]);
                assert(entries_model(e)[i] == entries_model(e.drop_first())[i - 1]);
            }
        }
    }
}

/// One locale's complete vocabulary: a table from string key to text value,
/// with no key repeated.
#[derive(Debug, PartialEq)]
pub struct LocaleTable {
    pub(crate) entries: Vec<(String, TextValue)>,
}

impl LocaleTable {
    /// The table as a sequence of key/value models, in insertion order.
    pub closed spec fn model(&self) -> Seq<(Seq<char>, ValueModel)> {
        entries_model(self.entries@)
    }

    pub open spec fn wf(&self) -> bool {
        entries_wf(self.model())
    }

    /// Wrap a vector of entries as a table, keeping them as they are.
    pub(crate) fn from_entries(entries: Vec<(String, TextValue)>) -> (r: LocaleTable)
        ensures
            r.model() == entries_model(entries@),
    {
        LocaleTable { entries }
    }

    /// An empty table.
    pub fn new() -> (r: LocaleTable)
        ensures
            r.model() == Seq::<(Seq<char>, ValueModel)>::empty(),
            r.wf(),
    {
        LocaleTable { entries: Vec::new() }
    }

    /// Add one entry. Returns false, and changes nothing, when the key is
    /// already present.
    pub fn insert(&mut self, key: String, value: TextValue) -> (r: bool)
        requires
            old(self).wf(),
            value_wf(value@),
        ensures
            r == !seq_has_key(old(self).model(), key@),
            r ==> final(self).model() == old(self).model().push((key@, value@)),
            !r ==> *final(self) == *old(self),
            final(self).wf(),
    {
        proof {
            lemma_entries_model(self.entries@);
        }
        if self.contains_key(&key) {
            return false;
        }
        let ghost olde = self.entries@;
        self.entries.push((key, value));
        proof {
            lemma_entries_model(self.entries@);
            assert(self.model() =~= old(self).model().push(
                (self.entries@[olde.len() as int].0@, value_model(self.entries@[olde.len() as int].1)),
            ));
            crate::value::lemma_entries_values_wf(old(self).model());
            crate::value::lemma_entries_values_wf(self.model());
            assert forall|p: int, q: int|
                0 <= p < q < self.model().len() implies self.model()[p].0 != self.model()[q].0 by {
                if q < self.model().len() - 1 {
                    assert(self.model()[p] == old(self).model()[p]);
                    assert(self.model()[q] == old(self).model()[q]);
                }
            }
        }
        true
    }

    /// Whether the table holds the given key.
    pub fn contains_key(&self, key: &String) -> (r: bool)
        ensures
            r == seq_has_key(self.model(), key@),
    {
        proof {
            lemma_entries_model(self.entries@);
        }
        let n = self.entries.len();
        let mut i: usize = 0;
        while i < n
            invariant
                n == self.entries.len(),
                0 <= i <= n,
                entries_model(self.entries@).len() == n,
                forall|j: int| 0 <= j < i ==> self.model()[j].0 != key@,
            decreases n - i,
        {
            if self.entries[i].0 == *key {
                proof {
                    lemma_entries_model(self.entries@);
                    assert(self.model()[i as int].0 == key@);
                }
                return true;
            }
            proof {
                lemma_entries_model(self.entries@);
            }
            i = i + 1;
        }
        false
    }

    /// The value stored under the given key, if any.
    pub fn get(&self, key: &String) -> (r: Option<&TextValue>)
        ensures
            r matches Some(v) ==> seq_lookup(self.model(), key@) == Some(v@),
            r is None ==> seq_lookup(self.model(), key@) is None,
    {
        proof {
            lemma_entries_model(self.entries@);
            lemma_seq_lookup_some(self.model(), key@);
        }
        let n = self.entries.len();
        let mut i: usize = 0;
        while i < n
            invariant
                n == self.entries.len(),
                0 <= i <= n,
                entries_model(self.entries@).len() == n,
                forall|j: int| 0 <= j < i ==> self.model()[j].0 != key@,
            decreases n - i,
        {
            proof {
                lemma_entries_model(self.entries@);
            }
            if self.entries[i].0 == *key {
                proof {
                    lemma_first_match(self.model(), key@, i as int);
                }
                return Some(&self.entries[i].1);
            }
            i = i + 1;
        }
        proof {
            lemma_seq_lookup_some(self.model(), key@);
        }
        None
    }

    /// The key stored at a position.
    pub fn key_at(&self, i: usize) -> (r: &String)
        requires
            i < self.model().len(),
        ensures
            r@ == self.model()[i as int].0,
    {
        proof {
            lemma_entries_model(self.entries@);
        }
        &self.entries[i].0
    }

    /// How many entries the table holds.
    pub fn len(&self) -> (r: usize)
        ensures
            r == self.model().len(),
    {
        proof {
            lemma_entries_model(self.entries@);
        }
        self.entries.len()
    }
}

/// A match at an index before which the key does not occur is what lookup
/// returns.
pub proof fn lemma_first_match<T>(s: Seq<(Seq<char>, T)>, k: Seq<char>, i: int)
    requires
        0 <= i < s.len(),
        s[i].0 == k,
        forall|j: int| 0 <= j < i ==> s[j].0 != k,
    ensures
        seq_lookup(s, k) == Some(s[i].1),
    decreases i,
{
    if i > 0 {
        assert forall|j: int| 0 <= j < i - 1 implies s.drop_first()[j].0 != k by {
            assert(s.drop_first()[j] == s[j + 1]);
        }
        assert(s.drop_first()[i - 1] == s[i]);
        lemma_first_match(s.drop_first(), k, i - 1);
    }
}

} // verus!
