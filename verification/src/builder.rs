use vstd::prelude::*;
use vstd::string::StringExecFns;

use crate::context::{
    context_complete, context_model, context_violation, context_wf, ctx_find, lemma_context_model,
};
use crate::json::{json_model, json_table, not_an_object_error, parse_table, serialize_value};
use crate::store::JSONGetText;
use crate::table::{seq_has_key, LocaleTable};
use crate::value::ValueModel;

verus! {

/// Everything that can go wrong while assembling or finalizing a context.
#[derive(Debug)]
pub enum JSONGetTextBuildError {
    /// Finalization found no table under the default locale.
    DefaultKeyNotFound,
    /// The locale `key` declares the key `text`, which the default table lacks.
    TextInKeyNotInDefaultKey { key: String, text: String },
    /// An add operation targeted a locale that is already present.
    DuplicatedKey(String),
    /// A byte-source failure, passed on verbatim.
    IOError(std::io::Error),
    /// A codec failure, passed on verbatim.
    SerdeJSONError(serde_json::Error),
}

/// Relies on std::io::Error's Display: the failure's own message.
#[verifier::external_body]
fn io_error_message(e: &std::io::Error) -> (r: String) {
    e.to_string()
}

/// Relies on serde_json::Error's Display: the codec's own message.
#[verifier::external_body]
fn json_error_message(e: &serde_json::Error) -> (r: String) {
    e.to_string()
}

impl JSONGetTextBuildError {
    /// The description the error prints: a fixed sentence for the library's
    /// own kinds, the outside error's own message for a wrapped one.
    pub fn message(&self) -> (r: String)
        ensures
            self matches JSONGetTextBuildError::DefaultKeyNotFound ==> r@
                == "The default key is not found."@,
            self matches JSONGetTextBuildError::TextInKeyNotInDefaultKey { key, text } ==> r@
                == "The text `"@ + text@ + "` in the key `"@ + key@
                + "` is not found in the default key."@,
            self matches JSONGetTextBuildError::DuplicatedKey(s) ==> r@ == s@,
    {
        match self {
            JSONGetTextBuildError::DefaultKeyNotFound => "The default key is not found.".to_owned(),
            JSONGetTextBuildError::TextInKeyNotInDefaultKey { key, text } => {
                let mut m = "The text `".to_owned();
                m.append(text.as_str());
                m.append("` in the key `");
                m.append(key.as_str());
                m.append("` is not found in the default key.");
                m
            },
            JSONGetTextBuildError::DuplicatedKey(s) => s.clone(),
            JSONGetTextBuildError::IOError(e) => io_error_message(e),
            JSONGetTextBuildError::SerdeJSONError(e) => json_error_message(e),
        }
    }
}

/// Assembles a context incrementally: tables are added one locale at a time,
/// each from its own source, and `build` validates the whole against the
/// default locale's key set.
#[derive(Debug)]
pub struct JSONGetTextBuilder {
    pub(crate) default_key: String,
    pub(crate) context: Vec<(String, LocaleTable)>,
}

impl JSONGetTextBuilder {
    /// The accumulated context, locale by locale, in insertion order.
    pub closed spec fn ctx(&self) -> Seq<(Seq<char>, Seq<(Seq<char>, ValueModel)>)> {
        context_model(self.context@)
    }

    /// The default locale chosen at construction.
    pub closed spec fn default_locale(&self) -> Seq<char> {
        self.default_key@
    }

    pub open spec fn wf(&self) -> bool {
        context_wf(self.ctx())
    }

    /// A new builder with an empty context. The default locale is fixed here;
    /// whether its table exists is checked only by `build`.
    pub fn new(default_key: &str) -> (r: JSONGetTextBuilder)
        ensures
            r.default_locale() == default_key@,
            r.ctx() == Seq::<(Seq<char>, Seq<(Seq<char>, ValueModel)>)>::empty(),
            r.wf(),
    {
        JSONGetTextBuilder { default_key: default_key.to_owned(), context: Vec::new() }
    }

    /// Add a pre-built table under a locale. Fails, changing nothing, when
    /// the locale is already present.
    pub fn add_map(&mut self, key: &str, map: LocaleTable) -> (r: Result<
        (),
        JSONGetTextBuildError,
    >)
        requires
            old(self).wf(),
            map.wf(),
        ensures
            final(self).wf(),
            final(self).default_locale() == old(self).default_locale(),
            seq_has_key(old(self).ctx(), key@) ==> (r matches Err(
                JSONGetTextBuildError::DuplicatedKey(k),
            ) && k@ == key@) && *final(self) == *old(self),
            !seq_has_key(old(self).ctx(), key@) ==> r is Ok && final(self).ctx() == old(
                self,
            ).ctx().push((key@, map.model())),
    {
        let k = key.to_owned();
        if ctx_find(&self.context, &k).is_some() {
            return Err(JSONGetTextBuildError::DuplicatedKey(k));
        }
        self.push_table(k, map);
        Ok(())
    }

    /// Add a table parsed from a borrowed text blob. The blob must hold one
    /// JSON object of key/value entries.
    pub fn add_json(&mut self, key: &str, json: &str) -> (r: Result<(), JSONGetTextBuildError>)
        requires
            old(self).wf(),
        ensures
            final(self).wf(),
            final(self).default_locale() == old(self).default_locale(),
            seq_has_key(old(self).ctx(), key@) ==> (r matches Err(
                JSONGetTextBuildError::DuplicatedKey(k),
            ) && k@ == key@) && *final(self) == *old(self),
            !seq_has_key(old(self).ctx(), key@) && json_table(json@) is None ==> (r matches Err(
                JSONGetTextBuildError::SerdeJSONError(_),
            )) && *final(self) == *old(self),
            json_table(json@) matches Some(t) ==> (!seq_has_key(old(self).ctx(), key@) ==> r is Ok
                && final(self).ctx() == old(self).ctx().push((key@, t))),
    {
        let k = key.to_owned();
        if ctx_find(&self.context, &k).is_some() {
            return Err(JSONGetTextBuildError::DuplicatedKey(k));
        }
        match parse_table(json) {
            Err(e) => Err(JSONGetTextBuildError::SerdeJSONError(e)),
            Ok(entries) => {
                let map = LocaleTable::from_entries(entries);
                self.push_table(k, map);
                Ok(())
            },
        }
    }

    /// Add a table parsed from an owned text blob; the stored values never
    /// borrow from the input. The blob must hold one JSON object.
    pub fn add_json_owned(&mut self, key: &str, json: String) -> (r: Result<
        (),
        JSONGetTextBuildError,
    >)
        requires
            old(self).wf(),
        ensures
            final(self).wf(),
            final(self).default_locale() == old(self).default_locale(),
            seq_has_key(old(self).ctx(), key@) ==> (r matches Err(
                JSONGetTextBuildError::DuplicatedKey(k),
            ) && k@ == key@) && *final(self) == *old(self),
            !seq_has_key(old(self).ctx(), key@) && json_table(json@) is None ==> (r matches Err(
                JSONGetTextBuildError::SerdeJSONError(_),
            )) && *final(self) == *old(self),
            json_table(json@) matches Some(t) ==> (!seq_has_key(old(self).ctx(), key@) ==> r is Ok
                && final(self).ctx() == old(self).ctx().push((key@, t))),
    {
        let k = key.to_owned();
        if ctx_find(&self.context, &k).is_some() {
            return Err(JSONGetTextBuildError::DuplicatedKey(k));
        }
        match parse_table(json.as_str()) {
            Err(e) => Err(JSONGetTextBuildError::SerdeJSONError(e)),
            Ok(entries) => {
                let map = LocaleTable::from_entries(entries);
                self.push_table(k, map);
                Ok(())
            },
        }
    }

    /// Add a table taken from an already-parsed structured value. The value
    /// must be an object; any other shape is reported as a codec error.
    pub fn add_value(&mut self, key: &str, value: serde_json::Value) -> (r: Result<
        (),
        JSONGetTextBuildError,
    >)
        requires
            old(self).wf(),
        ensures
            final(self).wf(),
            final(self).default_locale() == old(self).default_locale(),
            seq_has_key(old(self).ctx(), key@) ==> (r matches Err(
                JSONGetTextBuildError::DuplicatedKey(k),
            ) && k@ == key@) && *final(self) == *old(self),
            !seq_has_key(old(self).ctx(), key@) && !(json_model(value) is Object) ==> (r matches
                Err(JSONGetTextBuildError::SerdeJSONError(_))) && *final(self) == *old(self),
            json_model(value) matches ValueModel::Object(t) ==> (!seq_has_key(old(self).ctx(), key@)
                ==> r is Ok && final(self).ctx() == old(self).ctx().push((key@, t))),
    {
        let k = key.to_owned();
        if ctx_find(&self.context, &k).is_some() {
            return Err(JSONGetTextBuildError::DuplicatedKey(k));
        }
        match crate::json::value_to_entries(value) {
            None => Err(JSONGetTextBuildError::SerdeJSONError(not_an_object_error())),
            Some(entries) => {
                let map = LocaleTable::from_entries(entries);
                self.push_table(k, map);
                Ok(())
            },
        }
    }

    /// Add a table obtained by serializing any serializable structure. The
    /// structure must serialize to an object; any other shape, or a failure
    /// of the serializer itself, is reported as a codec error.
    pub fn add_serialize<S: serde::Serialize>(&mut self, key: &str, value: S) -> (r: Result<
        (),
        JSONGetTextBuildError,
    >)
        requires
            old(self).wf(),
        ensures
            final(self).wf(),
            final(self).default_locale() == old(self).default_locale(),
            seq_has_key(old(self).ctx(), key@) ==> (r matches Err(
                JSONGetTextBuildError::DuplicatedKey(k),
            ) && k@ == key@) && *final(self) == *old(self),
            !seq_has_key(old(self).ctx(), key@) && r is Ok ==> exists|t: Seq<(Seq<char>, ValueModel)>|
                final(self).ctx() == old(self).ctx().push((key@, t)),
            !seq_has_key(old(self).ctx(), key@) && r is Err ==> (r matches Err(
                JSONGetTextBuildError::SerdeJSONError(_),
            )) && *final(self) == *old(self),
    {
        let k = key.to_owned();
        if ctx_find(&self.context, &k).is_some() {
            return Err(JSONGetTextBuildError::DuplicatedKey(k));
        }
        match serialize_value(value) {
            Err(e) => Err(JSONGetTextBuildError::SerdeJSONError(e)),
            Ok(v) => self.add_value(key, v),
        }
    }

    /// Validate the context against the default locale's key set and, on
    /// success, turn it into an immutable store. The builder is consumed
    /// either way.
    pub fn build(self) -> (r: Result<JSONGetText, JSONGetTextBuildError>)
        requires
            self.wf(),
        ensures
            r is Ok <==> seq_has_key(self.ctx(), self.default_locale()) && context_complete(
                self.ctx(),
                self.default_locale(),
            ),
            r matches Ok(store) ==> store.ctx() == self.ctx() && store.default_locale()
                == self.default_locale() && store.wf(),
            (r matches Err(JSONGetTextBuildError::DefaultKeyNotFound)) <==> !seq_has_key(
                self.ctx(),
                self.default_locale(),
            ),
            r matches Err(JSONGetTextBuildError::TextInKeyNotInDefaultKey { key, text })
                ==> context_violation(self.ctx(), self.default_locale(), key@, text@),
            r is Err ==> (r matches Err(JSONGetTextBuildError::DefaultKeyNotFound)) || (r matches
                Err(JSONGetTextBuildError::TextInKeyNotInDefaultKey { .. })),
    {
        JSONGetText::from_context_with_default_key(self.default_key, self.context)
    }

    /// Source equivalence: every add operation records its table the same
    /// way, so any two of them that insert the same logical table under the
    /// same key into equal contexts leave equal contexts, whichever source
    /// each table came from.
    pub proof fn lemma_source_equivalence(
        a: JSONGetTextBuilder,
        b: JSONGetTextBuilder,
        a2: JSONGetTextBuilder,
        b2: JSONGetTextBuilder,
        key: Seq<char>,
        table: Seq<(Seq<char>, ValueModel)>,
    )
        requires
            a.ctx() == b.ctx(),
            a2.ctx() == a.ctx().push((key, table)),
            b2.ctx() == b.ctx().push((key, table)),
        ensures
            a2.ctx() == b2.ctx(),
    {
    }

    /// Append a table under a locale that is known to be absent.
    fn push_table(&mut self, k: String, map: LocaleTable)
        requires
            old(self).wf(),
            map.wf(),
            !seq_has_key(old(self).ctx(), k@),
        ensures
            final(self).wf(),
            final(self).default_locale() == old(self).default_locale(),
            final(self).ctx() == old(self).ctx().push((k@, map.model())),
    {
        proof {
            lemma_context_model(self.context@);
        }
        let ghost oldc = self.context@;
        self.context.push((k, map));
        proof {
            lemma_context_model(self.context@);
            assert(self.ctx() =~= old(self).ctx().push(
                (self.context@[oldc.len() as int].0@, self.context@[oldc.len() as int].1.model()),
            ));
            assert forall|p: int, q: int|
                0 <= p < q < self.ctx().len() implies self.ctx()[p].0 != self.ctx()[q].0 by {
                if q < self.ctx().len() - 1 {
                    assert(self.ctx()[p] == old(self).ctx()[p]);
                    assert(self.ctx()[q] == old(self).ctx()[q]);
                }
            }
            assert forall|p: int|
                0 <= p < self.ctx().len() implies crate::value::entries_wf(
                #[trigger] self.ctx()[p].1,
            ) by {
                if p < self.ctx().len() - 1 {
                    assert(self.ctx()[p] == old(self).ctx()[p]);
                } else {
                    assert(self.ctx()[p].1 == map.model());
                }
            }
        }
    }
}

} // verus!
