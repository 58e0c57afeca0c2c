use vstd::prelude::*;

use crate::errors::{Error, ValidationError};

verus! {

/// The text that `serde_json` renders for the JSON value parsed from `s`,
/// or `None` where `s` is not JSON.
pub uninterp spec fn canonical_json(s: Seq<char>) -> Option<Seq<char>>;

/// Relies on `serde_json::from_str` into a `serde_json::Value`, and on that
/// value's `Display`: the compact rendering, with object keys in order.
#[verifier::external_body]
fn canonicalize(s: &str) -> (r: Option<String>)
    ensures
        match r {
            Some(t) => canonical_json(s@) == Some(t@),
            None => canonical_json(s@) is None,
        },
{
    serde_json::from_str::<serde_json::Value>(s).ok().map(|v| v.to_string())
}

/// A property value: a JSON document, held as its canonical text so that two
/// values are equal exactly when their texts are.
#[derive(Debug, Clone, Hash)]
pub struct Json {
    text: String,
}

impl View for Json {
    type V = Seq<char>;

    closed spec fn view(&self) -> Seq<char> {
        self.text@
    }
}

impl PartialEq for Json {
    fn eq(&self, other: &Json) -> (r: bool) {
        self.text == other.text
    }
}

impl vstd::std_specs::cmp::PartialEqSpecImpl for Json {
    open spec fn obeys_eq_spec() -> bool {
        true
    }

    open spec fn eq_spec(&self, other: &Json) -> bool {
        self@ == other@
    }
}

impl Eq for Json {
}

/// The canonical text of JSON `null`.
pub open spec fn null_text() -> Seq<char> {
    seq!['n', 'u', 'l', 'l']
}

impl Json {
    /// Parses JSON text; `InvalidValue` where it is not JSON.
    pub fn parse(s: &str) -> (r: Result<Json, Error>)
        ensures
            match canonical_json(s@) {
                Some(t) => r matches Ok(j) && j@ == t,
                None => r == Err::<Json, Error>(Error::Validation(ValidationError::InvalidValue)),
            },
    {
        match canonicalize(s) {
            Some(text) => Ok(Json { text }),
            None => Err(Error::Validation(ValidationError::InvalidValue)),
        }
    }

    /// JSON `null`.
    pub fn null() -> (r: Json)
        ensures
            r@ == null_text(),
    {
        let mut text = String::new();
        text.append("null");
        proof {
            reveal_strlit("null");
            assert(text@ =~= null_text());
        }
        Json { text }
    }

    /// The canonical text.
    pub fn as_str(&self) -> (r: &str)
        ensures
            r@ == self@,
    {
        self.text.as_str()
    }

    /// Whether the value is JSON `null`.
    pub fn is_null(&self) -> (r: bool)
        ensures
            r == (self@ == null_text()),
    {
        let n = Json::null();
        self.text == n.text
    }

    /// Whether two values are the same JSON value.
    pub fn same(&self, other: &Json) -> (r: bool)
        ensures
            r == (self@ == other@),
    {
        self.text == other.text
    }

    /// A copy of the value.
    pub fn cloned(&self) -> (r: Json)
        ensures
            r@ == self@,
    {
        Json { text: self.text.clone() }
    }
}

} // verus!
