use vstd::prelude::*;

use crate::table::{seq_has_key, seq_lookup, LocaleTable};
use crate::value::{distinct_keys, entries_wf, ValueModel};

verus! {

/// The model of an accumulated context: locale after locale, each with the
/// model of its table, in insertion order.
pub open spec fn context_model(c: Seq<(String, LocaleTable)>) -> Seq<
    (Seq<char>, Seq<(Seq<char>, ValueModel)>),
>
    decreases c.len(),
{
    if c.len() == 0 {
        Seq::empty()
    } else {
        seq![(c[0].0@, c[0].1.model())] + context_model(c.drop_first())
    }
}

/// The model of a context vector, index by index.
pub proof fn lemma_context_model(c: Seq<(String, LocaleTable)>)
    ensures
        context_model(c).len() == c.len(),
        forall|i: int| 0 <= i < c.len() ==> context_model(c)[i] == (c[i].0@, c[i].1.model()),
    decreases c.len(),
{
    if c.len() > 0 {
        lemma_context_model(c.drop_first());
        assert forall|i: int| 0 <= i < c.len() implies context_model(c)[i] == (
            c[i].0@,
            c[i].1.model(),
        ) by {
            if i > 0 {
                assert(c.drop_first()[i - 1] == c[i]);
                assert(context_model(c)[i] == context_model(c.drop_first())[i - 1]);
            }
        }
    }
}

/// A well-formed context: no two locales share an identifier, and every
/// table is itself well-formed.
pub open spec fn context_wf(m: Seq<(Seq<char>, Seq<(Seq<char>, ValueModel)>)>) -> bool {
    distinct_keys(m) && forall|i: int| 0 <= i < m.len() ==> entries_wf(#[trigger] m[i].1)
}

/// The table stored under a locale, or the empty table when the locale is
/// absent.
pub open spec fn locale_table_model(
    m: Seq<(Seq<char>, Seq<(Seq<char>, ValueModel)>)>,
    k: Seq<char>,
) -> Seq<(Seq<char>, ValueModel)> {
    match seq_lookup(m, k) {
        Some(t) => t,
        None => Seq::empty(),
    }
}

/// Every key of every non-default table is also a key of the default table.
pub open spec fn context_complete(
    m: Seq<(Seq<char>, Seq<(Seq<char>, ValueModel)>)>,
    d: Seq<char>,
) -> bool {
    forall|i: int, j: int|
        0 <= i < m.len() && m[i].0 != d && 0 <= j < m[i].1.len() ==> seq_has_key(
            locale_table_model(m, d),
            (#[trigger] m[i].1[j]).0,
        )
}

/// The locale `loc` declares the key `text`, which the default table lacks.
pub open spec fn context_violation(
    m: Seq<(Seq<char>, Seq<(Seq<char>, ValueModel)>)>,
    d: Seq<char>,
    loc: Seq<char>,
    text: Seq<char>,
) -> bool {
    &&& seq_has_key(m, loc)
    &&& loc != d
    &&& seq_has_key(locale_table_model(m, loc), text)
    &&& !seq_has_key(locale_table_model(m, d), text)
}

/// An incomplete context always holds a witness pair: some locale and some
/// key of its table that the default table lacks.
pub proof fn lemma_incomplete_has_violation(
    m: Seq<(Seq<char>, Seq<(Seq<char>, ValueModel)>)>,
    d: Seq<char>,
)
    requires
        distinct_keys(m),
        !context_complete(m, d),
    ensures
        exists|loc: Seq<char>, text: Seq<char>| context_violation(m, d, loc, text),
{
    let (i, j) = choose|i: int, j: int|
        0 <= i < m.len() && m[i].0 != d && 0 <= j < m[i].1.len() && !seq_has_key(
            locale_table_model(m, d),
            (#[trigger] m[i].1[j]).0,
        );
    let loc = m[i].0;
    let text = m[i].1[j].0;
    crate::table::lemma_seq_lookup_at(m, i);
    assert(seq_has_key(m, loc));
    assert(locale_table_model(m, loc) == m[i].1);
    assert(seq_has_key(m[i].1, text));
    assert(context_violation(m, d, loc, text));
}

/// Find a locale in a context vector.
pub(crate) fn ctx_find(c: &Vec<(String, LocaleTable)>, key: &String) -> (r: Option<usize>)
    ensures
        r matches Some(i) ==> i < c@.len() && context_model(c@)[i as int].0 == key@,
        r is None <==> !seq_has_key(context_model(c@), key@),
{
    proof {
        lemma_context_model(c@);
    }
    let n = c.len();
    let mut i: usize = 0;
    while i < n
        invariant
            n == c@.len(),
            0 <= i <= n,
            context_model(c@).len() == n,
            forall|j: int| 0 <= j < i ==> context_model(c@)[j].0 != key@,
        decreases n - i,
    {
        proof {
            lemma_context_model(c@);
        }
        if c[i].0 == *key {
            proof {
                assert(context_model(c@)[i as int].0 == key@);
                assert(seq_has_key(context_model(c@), key@));
            }
            return Some(i);
        }
        i = i + 1;
    }
    None
}

} // verus!
