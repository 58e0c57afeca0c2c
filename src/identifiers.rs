use vstd::prelude::*;

use crate::errors::ValidationError;
use crate::types::utf8_len;

verus! {

/// Whether `url` accepts the text as an absolute URL.
pub uninterp spec fn is_url(s: Seq<char>) -> bool;

/// Relies on `url::Url::parse`: `Ok` exactly when the text parses as an
/// absolute URL; the parsed URL itself is not kept.
#[verifier::external_body]
fn parses_as_url(s: &str) -> (r: bool)
    ensures
        r == is_url(s@),
{
    url::Url::parse(s).is_ok()
}

/// The longest an identifier may be, in bytes of UTF-8.
pub const MAX_IDENTIFIER_LEN: usize = 255;

/// Text order: character by character, a proper prefix first.
pub open spec fn chars_lt(a: Seq<char>, b: Seq<char>) -> bool
    decreases a.len(),
{
    if b.len() == 0 {
        false
    } else if a.len() == 0 {
        true
    } else if a[0] != b[0] {
        a[0] < b[0]
    } else {
        chars_lt(a.drop_first(), b.drop_first())
    }
}

/// No text precedes itself.
pub proof fn lemma_chars_lt_irreflexive(a: Seq<char>)
    ensures
        !chars_lt(a, a),
    decreases a.len(),
{
    if a.len() > 0 {
        lemma_chars_lt_irreflexive(a.drop_first());
    }
}

/// Text order is transitive.
pub proof fn lemma_chars_lt_transitive(a: Seq<char>, b: Seq<char>, c: Seq<char>)
    requires
        chars_lt(a, b),
        chars_lt(b, c),
    ensures
        chars_lt(a, c),
    decreases a.len(),
{
    if a.len() > 0 && b.len() > 0 && c.len() > 0 && a[0] == b[0] && b[0] == c[0] {
        lemma_chars_lt_transitive(a.drop_first(), b.drop_first(), c.drop_first());
    }
}

/// Of two different texts, one precedes the other.
pub proof fn lemma_chars_lt_total(a: Seq<char>, b: Seq<char>)
    requires
        a != b,
    ensures
        chars_lt(a, b) || chars_lt(b, a),
    decreases a.len(),
{
    if a.len() > 0 && b.len() > 0 && a[0] == b[0] {
        if a.drop_first() == b.drop_first() {
            assert(a =~= seq![a[0]] + a.drop_first());
            assert(b =~= seq![b[0]] + b.drop_first());
        }
        lemma_chars_lt_total(a.drop_first(), b.drop_first());
    } else if a.len() == 0 && b.len() == 0 {
        assert(a =~= b);
    }
}

/// The characters of the text.
pub fn chars_of(s: &str) -> (r: Vec<char>)
    ensures
        r@ == s@,
{
    let mut out: Vec<char> = Vec::new();
    for c in it: s.chars()
        invariant
            it.seq() == s@,
            out@ == s@.take(it.index() as int),
    {
        out.push(c);
        assert(out@ =~= s@.take(it.index() + 1));
    }
    assert(out@ =~= s@);
    out
}

/// Whether the first text precedes the second.
fn chars_less(a: &Vec<char>, b: &Vec<char>) -> (r: bool)
    ensures
        r == chars_lt(a@, b@),
{
    let mut i: usize = 0;
    assert(a@.skip(0) =~= a@ && b@.skip(0) =~= b@);
    while i < a.len() && i < b.len()
        invariant
            0 <= i <= a.len(),
            i <= b.len(),
            chars_lt(a@, b@) == chars_lt(a@.skip(i as int), b@.skip(i as int)),
        decreases a.len() - i,
    {
        let x = a[i];
        let y = b[i];
        if x != y {
            assert(a@.skip(i as int)[0] == x && b@.skip(i as int)[0] == y);
            return x < y;
        }
        assert(a@.skip(i as int).drop_first() =~= a@.skip(i + 1));
        assert(b@.skip(i as int).drop_first() =~= b@.skip(i + 1));
        i += 1;
    }
    i < b.len()
}

/// A name for a vertex type, an edge type or a property.
///
/// Identifiers built by `new` are absolute URLs of at most 255 bytes.
/// Equality and ordering go by the characters.
#[derive(Debug, Clone, Hash, PartialOrd, Ord)]
pub struct Identifier(pub(crate) String);

impl View for Identifier {
    type V = Seq<char>;

    closed spec fn view(&self) -> Seq<char> {
        self.0@
    }
}

impl PartialEq for Identifier {
    fn eq(&self, other: &Identifier) -> (r: bool) {
        self.0 == other.0
    }
}

impl vstd::std_specs::cmp::PartialEqSpecImpl for Identifier {
    open spec fn obeys_eq_spec() -> bool {
        true
    }

    open spec fn eq_spec(&self, other: &Identifier) -> bool {
        self@ == other@
    }
}

impl Eq for Identifier {
}

impl Identifier {
    /// Constructs a new identifier: `ValueTooLong` past 255 bytes, else
    /// `InvalidValue` unless the text is an absolute URL.
    pub fn new(s: &str) -> (r: Result<Identifier, ValidationError>)
        ensures
            utf8_len(s@) > MAX_IDENTIFIER_LEN ==> r == Err::<Identifier, ValidationError>(
                ValidationError::ValueTooLong,
            ),
            utf8_len(s@) <= MAX_IDENTIFIER_LEN && is_url(s@) ==> (r matches Ok(id) && id@ == s@),
            utf8_len(s@) <= MAX_IDENTIFIER_LEN && !is_url(s@) ==> r == Err::<
                Identifier,
                ValidationError,
            >(ValidationError::InvalidValue),
    {
        if s.as_bytes().len() > MAX_IDENTIFIER_LEN {
            Err(ValidationError::ValueTooLong)
        } else if parses_as_url(s) {
            Ok(Identifier(s.to_owned()))
        } else {
            Err(ValidationError::InvalidValue)
        }
    }

    /// Constructs an identifier without validating it, for text that was
    /// validated when it was first stored.
    pub fn new_unchecked(s: &str) -> (r: Identifier)
        ensures
            r@ == s@,
    {
        Identifier(s.to_owned())
    }

    /// The identifier's text.
    pub fn as_str(&self) -> (r: &str)
        ensures
            r@ == self@,
    {
        self.0.as_str()
    }

    /// The identifier's text, as an owned string.
    pub fn to_string(&self) -> (r: String)
        ensures
            r@ == self@,
    {
        self.0.clone()
    }

    /// A copy of the identifier.
    pub fn cloned(&self) -> (r: Identifier)
        ensures
            r@ == self@,
    {
        Identifier(self.0.clone())
    }

    /// Whether this identifier's text precedes the other's.
    pub fn precedes(&self, other: &Identifier) -> (r: bool)
        ensures
            r == chars_lt(self@, other@),
    {
        let a = chars_of(self.0.as_str());
        let b = chars_of(other.0.as_str());
        chars_less(&a, &b)
    }

    /// Whether two identifiers have the same text.
    pub fn same(&self, other: &Identifier) -> (r: bool)
        ensures
            r == (self@ == other@),
    {
        self.0 == other.0
    }

    /// Parses an identifier from text, validating it as `new` does.
    pub fn from_str(s: &str) -> (r: Result<Identifier, ValidationError>)
        ensures
            utf8_len(s@) > MAX_IDENTIFIER_LEN ==> r == Err::<Identifier, ValidationError>(
                ValidationError::ValueTooLong,
            ),
            utf8_len(s@) <= MAX_IDENTIFIER_LEN && is_url(s@) ==> (r matches Ok(id) && id@ == s@),
            utf8_len(s@) <= MAX_IDENTIFIER_LEN && !is_url(s@) ==> r == Err::<
                Identifier,
                ValidationError,
            >(ValidationError::InvalidValue),
    {
        Identifier::new(s)
    }

    /// Converts an owned string into an identifier, validating it as `new` does.
    pub fn try_from(s: String) -> (r: Result<Identifier, ValidationError>)
        ensures
            utf8_len(s@) > MAX_IDENTIFIER_LEN ==> r == Err::<Identifier, ValidationError>(
                ValidationError::ValueTooLong,
            ),
            utf8_len(s@) <= MAX_IDENTIFIER_LEN && is_url(s@) ==> (r matches Ok(id) && id@ == s@),
            utf8_len(s@) <= MAX_IDENTIFIER_LEN && !is_url(s@) ==> r == Err::<
                Identifier,
                ValidationError,
            >(ValidationError::InvalidValue),
    {
        Identifier::new(s.as_str())
    }
}

impl Default for Identifier {
    /// The empty identifier, which sorts before every other one.
    fn default() -> (r: Identifier)
        ensures
            r@ == Seq::<char>::empty(),
    {
        Identifier(String::new())
    }
}

} // verus!
