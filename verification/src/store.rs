use vstd::prelude::*;

use crate::builder::JSONGetTextBuildError;
use crate::context::{
    context_complete, context_model, context_violation, context_wf, ctx_find, lemma_context_model,
    locale_table_model,
};
use crate::table::{lemma_seq_lookup_at, seq_has_key, seq_lookup, LocaleTable};
use crate::value::{TextValue, ValueModel};

verus! {

/// The immutable, validated result of a build: every key any locale declares
/// is also a key of the default locale's table, so the fallback lookup below
/// never misses a declared key.
#[derive(Debug)]
pub struct JSONGetText {
    pub(crate) default_key: String,
    pub(crate) context: Vec<(String, LocaleTable)>,
}

/// What a lookup returns: the value under the requested locale when that
/// locale's table has the key, else the value under the default locale, else
/// nothing.
pub open spec fn fallback_lookup(
    m: Seq<(Seq<char>, Seq<(Seq<char>, ValueModel)>)>,
    d: Seq<char>,
    loc: Seq<char>,
    text: Seq<char>,
) -> Option<ValueModel> {
    match seq_lookup(locale_table_model(m, loc), text) {
        Some(v) => Some(v),
        None => seq_lookup(locale_table_model(m, d), text),
    }
}

impl JSONGetText {
    /// The validated context, locale by locale, in insertion order.
    pub closed spec fn ctx(&self) -> Seq<(Seq<char>, Seq<(Seq<char>, ValueModel)>)> {
        context_model(self.context@)
    }

    /// The default locale fixed when the builder was made.
    pub closed spec fn default_locale(&self) -> Seq<char> {
        self.default_key@
    }

    pub open spec fn wf(&self) -> bool {
        &&& context_wf(self.ctx())
        &&& seq_has_key(self.ctx(), self.default_locale())
        &&& context_complete(self.ctx(), self.default_locale())
    }

    /// Validate a context against its default locale's key set. The default
    /// table must exist, and every key of every other table must also be a
    /// key of the default table; the first offence found is reported and the
    /// whole context discarded.
    pub fn from_context_with_default_key(
        default_key: String,
        context: Vec<(String, LocaleTable)>,
    ) -> (r: Result<JSONGetText, JSONGetTextBuildError>)
        requires
            context_wf(context_model(context@)),
        ensures
            r is Ok <==> seq_has_key(context_model(context@), default_key@) && context_complete(
                context_model(context@),
                default_key@,
            ),
            r matches Ok(store) ==> store.ctx() == context_model(context@)
                && store.default_locale() == default_key@ && store.wf(),
            (r matches Err(JSONGetTextBuildError::DefaultKeyNotFound)) <==> !seq_has_key(
                context_model(context@),
                default_key@,
            ),
            r matches Err(JSONGetTextBuildError::TextInKeyNotInDefaultKey { key, text })
                ==> context_violation(context_model(context@), default_key@, key@, text@),
            r is Err ==> (r matches Err(JSONGetTextBuildError::DefaultKeyNotFound)) || (r matches
                Err(JSONGetTextBuildError::TextInKeyNotInDefaultKey { .. })),
    {
        let ghost m = context_model(context@);
        let ghost d = default_key@;
        proof {
            lemma_context_model(context@);
        }
        let di = match ctx_find(&context, &default_key) {
            None => {
                return Err(JSONGetTextBuildError::DefaultKeyNotFound);
            },
            Some(di) => di,
        };
        proof {
            lemma_seq_lookup_at(m, di as int);
            assert(locale_table_model(m, d) == m[di as int].1);
        }
        let default_table = &context[di].1;
        let n = context.len();
        let mut i: usize = 0;
        while i < n
            invariant
                n == context@.len(),
                0 <= i <= n,
                m == context_model(context@),
                d == default_key@,
                m.len() == n,
                context_wf(m),
                di < n,
                m[di as int].0 == d,
                locale_table_model(m, d) == m[di as int].1,
                default_table.model() == m[di as int].1,
                default_table == &context[di as int].1,
                forall|p: int, q: int|
                    0 <= p < i && m[p].0 != d && 0 <= q < m[p].1.len() ==> seq_has_key(
                        locale_table_model(m, d),
                        (#[trigger] m[p].1[q]).0,
                    ),
            decreases n - i,
        {
            proof {
                lemma_context_model(context@);
            }
            if i != di {
                let table = &context[i].1;
                let tn = table.len();
                let mut j: usize = 0;
                while j < tn
                    invariant
                        n == context@.len(),
                        0 <= i < n,
                        tn == table.model().len(),
                        0 <= j <= tn,
                        m == context_model(context@),
                        d == default_key@,
                        m.len() == n,
                        context_wf(m),
                        di < n,
                        i != di,
                        m[di as int].0 == d,
                        locale_table_model(m, d) == m[di as int].1,
                        default_table.model() == m[di as int].1,
                        default_table == &context[di as int].1,
                        table == &context[i as int].1,
                        table.model() == m[i as int].1,
                        forall|q: int|
                            0 <= q < j ==> seq_has_key(
                                locale_table_model(m, d),
                                (#[trigger] m[i as int].1[q]).0,
                            ),
                    decreases tn - j,
                {
                    let text = table.key_at(j);
                    if !default_table.contains_key(text) {
                        proof {
                            lemma_context_model(context@);
                            lemma_seq_lookup_at(m, i as int);
                            assert(seq_has_key(m, m[i as int].0));
                            assert(locale_table_model(m, m[i as int].0) == m[i as int].1);
                            assert(m[i as int].1[j as int].0 == text@);
                            assert(seq_has_key(m[i as int].1, text@));
                            if i < di {
                                assert(m[i as int].0 != m[di as int].0);
                            } else {
                                assert(m[di as int].0 != m[i as int].0);
                            }
                            assert(m[i as int].0 == context@[i as int].0@);
                        }
                        return Err(JSONGetTextBuildError::TextInKeyNotInDefaultKey {
                            key: context[i].0.clone(),
                            text: text.clone(),
                        });
                    }
                    j = j + 1;
                }
            }
            i = i + 1;
        }
        proof {
            assert(context_complete(m, d));
        }
        Ok(JSONGetText { default_key, context })
    }

    /// The default locale's identifier.
    pub fn get_default_key(&self) -> (r: &String)
        ensures
            r@ == self.default_locale(),
    {
        &self.default_key
    }

    /// Look a key up under a locale, falling back to the default locale's
    /// table when the locale's own table (or the locale itself) lacks it.
    pub fn get(&self, key: &str, text: &str) -> (r: Option<&TextValue>)
        requires
            self.wf(),
        ensures
            r matches Some(v) ==> fallback_lookup(
                self.ctx(),
                self.default_locale(),
                key@,
                text@,
            ) == Some(v@),
            r is None ==> fallback_lookup(self.ctx(), self.default_locale(), key@, text@) is None,
    {
        let k = key.to_owned();
        let t = text.to_owned();
        proof {
            lemma_context_model(self.context@);
        }
        let own = match ctx_find(&self.context, &k) {
            Some(i) => {
                proof {
                    lemma_seq_lookup_at(self.ctx(), i as int);
                }
                self.context[i].1.get(&t)
            },
            None => {
                proof {
                    crate::table::lemma_seq_lookup_some(self.ctx(), k@);
                }
                None
            },
        };
        match own {
            Some(v) => Some(v),
            None => {
                match ctx_find(&self.context, &self.default_key) {
                    Some(di) => {
                        proof {
                            lemma_seq_lookup_at(self.ctx(), di as int);
                        }
                        self.context[di].1.get(&t)
                    },
                    None => {
                        proof {
                            crate::table::lemma_seq_lookup_some(self.ctx(), self.default_key@);
                        }
                        None
                    },
                }
            },
        }
    }
}

/// The finalized store's structural guarantee: any key that any present
/// locale declares is a key of the default locale's table, so a lookup of it
/// under the default locale succeeds.
pub proof fn lemma_default_completeness(s: JSONGetText, loc: Seq<char>, text: Seq<char>)
    requires
        s.wf(),
        seq_has_key(s.ctx(), loc),
        seq_has_key(locale_table_model(s.ctx(), loc), text),
    ensures
        seq_lookup(locale_table_model(s.ctx(), s.default_locale()), text) is Some,
        fallback_lookup(s.ctx(), s.default_locale(), loc, text) is Some,
{
    let m = s.ctx();
    let d = s.default_locale();
    let i = choose|i: int| 0 <= i < m.len() && m[i].0 == loc;
    lemma_seq_lookup_at(m, i);
    assert(locale_table_model(m, loc) == m[i].1);
    if loc == d {
        crate::table::lemma_seq_lookup_some(locale_table_model(m, d), text);
    } else {
        let j = choose|j: int| 0 <= j < m[i].1.len() && m[i].1[j].0 == text;
        assert(seq_has_key(locale_table_model(m, d), m[i].1[j].0));
        crate::table::lemma_seq_lookup_some(locale_table_model(m, d), text);
    }
    crate::table::lemma_seq_lookup_some(locale_table_model(m, loc), text);
}

} // verus!
