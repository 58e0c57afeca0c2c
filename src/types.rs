use vstd::prelude::*;

use crate::errors::ValidationError;

verus! {

/// The longest a type may be, in bytes of UTF-8.
pub const MAX_TYPE_LEN: usize = 255;

/// A character allowed in a type: an ASCII letter or digit, a dash or an
/// underscore.
pub open spec fn is_type_char(c: char) -> bool {
    ('a' <= c && c <= 'z') || ('A' <= c && c <= 'Z') || ('0' <= c && c <= '9') || c == '-' || c
        == '_'
}

/// The length of the text in bytes of UTF-8.
pub open spec fn utf8_len(s: Seq<char>) -> int {
    vstd::utf8::encode_utf8(s).len() as int
}

/// Every character of the text is allowed in a type.
pub open spec fn all_type_chars(s: Seq<char>) -> bool {
    forall|i: int| 0 <= i < s.len() ==> is_type_char(#[trigger] s[i])
}

/// An edge or vertex type: at most 255 bytes of ASCII letters, digits,
/// dashes and underscores.
#[derive(Debug, Clone, Hash, PartialOrd, Ord)]
pub struct Type(pub String);

impl View for Type {
    type V = Seq<char>;

    open spec fn view(&self) -> Seq<char> {
        self.0@
    }
}

impl PartialEq for Type {
    fn eq(&self, other: &Type) -> (r: bool) {
        self.0 == other.0
    }
}

impl vstd::std_specs::cmp::PartialEqSpecImpl for Type {
    open spec fn obeys_eq_spec() -> bool {
        true
    }

    open spec fn eq_spec(&self, other: &Type) -> bool {
        self@ == other@
    }
}

impl Eq for Type {
}

impl Type {
    /// Constructs a new type: `ValueTooLong` past 255 bytes, else
    /// `InvalidValue` if a character is not allowed.
    pub fn new(s: &str) -> (r: Result<Type, ValidationError>)
        ensures
            utf8_len(s@) > MAX_TYPE_LEN ==> r == Err::<Type, ValidationError>(
                ValidationError::ValueTooLong,
            ),
            utf8_len(s@) <= MAX_TYPE_LEN && !all_type_chars(s@) ==> r == Err::<
                Type,
                ValidationError,
            >(ValidationError::InvalidValue),
            utf8_len(s@) <= MAX_TYPE_LEN && all_type_chars(s@) ==> (r matches Ok(t)
                && t@ == s@),
    {
        if s.as_bytes().len() > MAX_TYPE_LEN {
            return Err(ValidationError::ValueTooLong);
        }
        let mut ok = true;
        for c in it: s.chars()
            invariant
                it.seq() == s@,
                ok == (forall|i: int| 0 <= i < it.index() ==> is_type_char(#[trigger] s@[i])),
        {
            let allowed = ('a' <= c && c <= 'z') || ('A' <= c && c <= 'Z') || ('0' <= c && c <= '9')
                || c == '-' || c == '_';
            ok = ok && allowed;
        }
        if ok {
            Ok(Type(s.to_owned()))
        } else {
            Err(ValidationError::InvalidValue)
        }
    }

    /// Constructs a type without validating it.
    pub fn new_unchecked(s: &str) -> (r: Type)
        ensures
            r@ == s@,
    {
        Type(s.to_owned())
    }

    /// Parses a type from text, validating it as `new` does.
    pub fn from_str(s: &str) -> (r: Result<Type, ValidationError>)
        ensures
            utf8_len(s@) > MAX_TYPE_LEN ==> r == Err::<Type, ValidationError>(
                ValidationError::ValueTooLong,
            ),
            utf8_len(s@) <= MAX_TYPE_LEN && !all_type_chars(s@) ==> r == Err::<
                Type,
                ValidationError,
            >(ValidationError::InvalidValue),
            utf8_len(s@) <= MAX_TYPE_LEN && all_type_chars(s@) ==> (r matches Ok(t) && t@ == s@),
    {
        Type::new(s)
    }

    /// Converts an owned string into a type, validating it as `new` does.
    pub fn try_from(s: String) -> (r: Result<Type, ValidationError>)
        ensures
            utf8_len(s@) > MAX_TYPE_LEN ==> r == Err::<Type, ValidationError>(
                ValidationError::ValueTooLong,
            ),
            utf8_len(s@) <= MAX_TYPE_LEN && !all_type_chars(s@) ==> r == Err::<
                Type,
                ValidationError,
            >(ValidationError::InvalidValue),
            utf8_len(s@) <= MAX_TYPE_LEN && all_type_chars(s@) ==> (r matches Ok(
                t,
            ) && t@ == s@),
    {
        Type::new(s.as_str())
    }
}

impl Default for Type {
    /// The empty type.
    fn default() -> (r: Type)
        ensures
            r@ == Seq::<char>::empty(),
    {
        Type(String::new())
    }
}

} // verus!
