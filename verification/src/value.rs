use vstd::prelude::*;

use crate::json::{num_fits_i64, num_i64_value, number_as_i64};

verus! {

/// The mathematical model of a stored text value: a finite tree of scalars,
/// lists and key/value tables. Numbers outside the signed 64-bit range are
/// kept as the codec's own number type, which this model carries opaquely.
pub enum ValueModel {
    Null,
    Boolean(bool),
    Integer(i64),
    Float(serde_json::Number),
    Text(Seq<char>),
    List(Seq<ValueModel>),
    Object(Seq<(Seq<char>, ValueModel)>),
}

/// One entry's content in a locale table: a scalar, an ordered list, or a
/// nested key/value object. Immutable once constructed.
#[derive(Debug, PartialEq)]
pub enum TextValue {
    Null,
    Boolean(bool),
    Integer(i64),
    Float(serde_json::Number),
    Text(String),
    List(Vec<TextValue>),
    Object(Vec<(String, TextValue)>),
}

pub open spec fn value_model(v: TextValue) -> ValueModel
    decreases v,
{
    match v {
        TextValue::Null => ValueModel::Null,
        TextValue::Boolean(b) => ValueModel::Boolean(b),
        TextValue::Integer(i) => ValueModel::Integer(i),
        TextValue::Float(n) => ValueModel::Float(n),
        TextValue::Text(s) => ValueModel::Text(s@),
        TextValue::List(l) => ValueModel::List(list_model(l@)),
        TextValue::Object(o) => ValueModel::Object(entries_model(o@)),
    }
}

pub open spec fn list_model(l: Seq<TextValue>) -> Seq<ValueModel>
    decreases l,
{
    if l.len() == 0 {
        Seq::empty()
    } else {
        seq![value_model(l[0])] + list_model(l.drop_first())
    }
}

pub open spec fn entries_model(e: Seq<(String, TextValue)>) -> Seq<(Seq<char>, ValueModel)>
    decreases e,
{
    if e.len() == 0 {
        Seq::empty()
    } else {
        seq![(e[0].0@, value_model(e[0].1))] + entries_model(e.drop_first())
    }
}

impl View for TextValue {
    type V = ValueModel;

    open spec fn view(&self) -> ValueModel {
        value_model(*self)
    }
}

/// No two entries of a table share a key.
pub open spec fn distinct_keys<T>(e: Seq<(Seq<char>, T)>) -> bool {
    forall|i: int, j: int| 0 <= i < j < e.len() ==> e[i].0 != e[j].0
}

/// Well-formedness of a value: every object in the tree has distinct keys,
/// and a number kept in its codec form is never one the Integer variant
/// could hold instead.
pub open spec fn value_wf(m: ValueModel) -> bool
    decreases m,
{
    match m {
        ValueModel::Null => true,
        ValueModel::Boolean(_) => true,
        ValueModel::Integer(_) => true,
        ValueModel::Float(n) => !num_fits_i64(n),
        ValueModel::Text(_) => true,
        ValueModel::List(l) => list_wf(l),
        ValueModel::Object(e) => distinct_keys(e) && entries_values_wf(e),
    }
}

pub open spec fn list_wf(l: Seq<ValueModel>) -> bool
    decreases l,
{
    if l.len() == 0 {
        true
    } else {
        value_wf(l[0]) && list_wf(l.drop_first())
    }
}

pub open spec fn entries_wf(e: Seq<(Seq<char>, ValueModel)>) -> bool {
    distinct_keys(e) && entries_values_wf(e)
}

pub open spec fn entries_values_wf(e: Seq<(Seq<char>, ValueModel)>) -> bool
    decreases e,
{
    if e.len() == 0 {
        true
    } else {
        value_wf(e[0].1) && entries_values_wf(e.drop_first())
    }
}

/// Entry-wise well-formedness of values is the same fact for every index.
pub proof fn lemma_entries_values_wf(e: Seq<(Seq<char>, ValueModel)>)
    ensures
        entries_values_wf(e) <==> (forall|i: int| 0 <= i < e.len() ==> value_wf(#[trigger] e[i].1)),
    decreases e.len(),
{
    if e.len() > 0 {
        lemma_entries_values_wf(e.drop_first());
        assert(forall|i: int|
            0 < i < e.len() ==> #[trigger] e[i] == e.drop_first()[i - 1]);
        if value_wf(e[0].1) && entries_values_wf(e.drop_first()) {
            assert forall|i: int| 0 <= i < e.len() implies value_wf(#[trigger] e[i].1) by {
                if i > 0 {
                    assert(e[i] == e.drop_first()[i - 1]);
                }
            }
        }
        if forall|i: int| 0 <= i < e.len() ==> value_wf(#[trigger] e[i].1) {
            assert forall|i: int|
                0 <= i < e.drop_first().len() implies value_wf(
                #[trigger] e.drop_first()[i].1,
            ) by {
                assert(e.drop_first()[i] == e[i + 1]);
            }
        }
    }
}

/// The model of a vector of values, index by index.
pub proof fn lemma_list_model(l: Seq<TextValue>)
    ensures
        list_model(l).len() == l.len(),
        forall|i: int| 0 <= i < l.len() ==> list_model(l)[i] == value_model(l[i]),
    decreases l.len(),
{
    if l.len() > 0 {
        lemma_list_model(l.drop_first());
        assert forall|i: int| 0 <= i < l.len() implies list_model(l)[i] == value_model(l[i]) by {
            if i > 0 {
                assert(l.drop_first()[i - 1] == l[i]);
                assert(list_model(l)[i] == list_model(l.drop_first())[i - 1]);
            }
        }
    }
}

/// List well-formedness is the same fact for every element.
pub proof fn lemma_list_wf(l: Seq<ValueModel>)
    ensures
        list_wf(l) <==> (forall|i: int| 0 <= i < l.len() ==> value_wf(#[trigger] l[i])),
    decreases l.len(),
{
    if l.len() > 0 {
        lemma_list_wf(l.drop_first());
        if value_wf(l[0]) && list_wf(l.drop_first()) {
            assert forall|i: int| 0 <= i < l.len() implies value_wf(#[trigger] l[i]) by {
                if i > 0 {
                    assert(l[i] == l.drop_first()[i - 1]);
                }
            }
        }
        if forall|i: int| 0 <= i < l.len() ==> value_wf(#[trigger] l[i]) {
            assert forall|i: int|
                0 <= i < l.drop_first().len() implies value_wf(#[trigger] l.drop_first()[i]) by {
                assert(l.drop_first()[i] == l[i + 1]);
            }
        }
    }
}

/// The model a codec number denotes: an Integer when it lies in the signed
/// 64-bit range, the opaque number itself otherwise.
pub open spec fn number_model(n: serde_json::Number) -> ValueModel {
    if num_fits_i64(n) {
        ValueModel::Integer(num_i64_value(n))
    } else {
        ValueModel::Float(n)
    }
}

impl TextValue {
    /// Turn a codec number into a well-formed value, choosing the Integer
    /// variant exactly when the number fits the signed 64-bit range.
    pub fn from_number(n: serde_json::Number) -> (r: TextValue)
        ensures
            r@ == number_model(n),
            value_wf(r@),
    {
        match number_as_i64(&n) {
            Some(i) => TextValue::Integer(i),
            None => TextValue::Float(n),
        }
    }

    /// Whether the value is well-formed: no object in the tree repeats a
    /// key, and no number kept in codec form fits the Integer variant.
    #[verifier::loop_isolation(false)]
    pub fn is_well_formed(&self) -> (r: bool)
        ensures
            r == value_wf(self@),
        decreases *self,
    {
        match self {
            TextValue::Null => true,
            TextValue::Boolean(_) => true,
            TextValue::Integer(_) => true,
            TextValue::Text(_) => true,
            TextValue::Float(n) => number_as_i64(n).is_none(),
            TextValue::List(l) => {
                proof {
                    lemma_list_model(l@);
                    lemma_list_wf(list_model(l@));
                }
                let n = l.len();
                let mut i: usize = 0;
                while i < n
                    invariant
                        n == l@.len(),
                        0 <= i <= n,
                        list_model(l@).len() == n,
                        forall|p: int| 0 <= p < n ==> list_model(l@)[p] == value_model(l@[p]),
                        forall|p: int| 0 <= p < i ==> value_wf(#[trigger] list_model(l@)[p]),
                    decreases n - i,
                {
                    if !l[i].is_well_formed() {
                        proof {
                            assert(!value_wf(list_model(l@)[i as int]));
                            lemma_list_wf(list_model(l@));
                            assert(!list_wf(list_model(l@)));
                        }
                        return false;
                    }
                    i = i + 1;
                }
                proof {
                    lemma_list_wf(list_model(l@));
                }
                true
            },
            TextValue::Object(o) => {
                proof {
                    crate::table::lemma_entries_model(o@);
                    lemma_entries_values_wf(entries_model(o@));
                }
                let n = o.len();
                let mut i: usize = 0;
                while i < n
                    invariant
                        n == o@.len(),
                        0 <= i <= n,
                        entries_model(o@).len() == n,
                        forall|p: int|
                            0 <= p < n ==> entries_model(o@)[p] == (o@[p].0@, value_model(o@[p].1)),
                        forall|p: int|
                            0 <= p < i ==> value_wf((#[trigger] entries_model(o@)[p]).1),
                        forall|p: int, q: int|
                            0 <= p < i && p < q < n ==> (#[trigger] entries_model(o@)[p]).0 != (
                            #[trigger] entries_model(o@)[q]).0,
                    decreases n - i,
                {
                    if !o[i].1.is_well_formed() {
                        proof {
                            assert(!value_wf((entries_model(o@)[i as int]).1));
                            lemma_entries_values_wf(entries_model(o@));
                            assert(!entries_values_wf(entries_model(o@)));
                        }
                        return false;
                    }
                    let mut j: usize = i + 1;
                    while j < n
                        invariant
                            n == o@.len(),
                            0 <= i < n,
                            i < j <= n,
                            entries_model(o@).len() == n,
                            forall|p: int|
                                0 <= p < n ==> entries_model(o@)[p] == (
                                    o@[p].0@,
                                    value_model(o@[p].1),
                                ),
                            forall|q: int|
                                i < q < j ==> entries_model(o@)[i as int].0 != (
                                #[trigger] entries_model(o@)[q]).0,
                        decreases n - j,
                    {
                        if o[i].0 == o[j].0 {
                            proof {
                                assert((entries_model(o@)[i as int]).0 == (entries_model(
                                    o@,
                                )[j as int]).0);
                                assert(!distinct_keys(entries_model(o@)));
                            }
                            return false;
                        }
                        j = j + 1;
                    }
                    i = i + 1;
                }
                proof {
                    lemma_entries_values_wf(entries_model(o@));
                }
                true
            },
        }
    }
}

} // verus!
