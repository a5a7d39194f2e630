//! Scalar column values, their kinds, and their text form in URL paths.

use sea_orm::entity::prelude::Uuid;
use vstd::arithmetic::power::pow;
use vstd::prelude::*;

verus! {

/// The scalar type of a column.
#[derive(Clone, Copy, Debug, PartialEq, Eq, Structural)]
pub enum ValueKind {
    Uuid,
    Text,
    Bool,
}

/// A typed scalar value stored in one column.
#[derive(Clone, Debug, PartialEq, Eq)]
pub enum Value {
    Uuid(u128),
    Text(String),
    Bool(bool),
}

/// The mathematical form of a [`Value`].
pub enum ValueView {
    Uuid(u128),
    Text(Seq<char>),
    Bool(bool),
}

impl View for Value {
    type V = ValueView;

    open spec fn view(&self) -> ValueView {
        match self {
            Value::Uuid(u) => ValueView::Uuid(*u),
            Value::Text(s) => ValueView::Text(s@),
            Value::Bool(b) => ValueView::Bool(*b),
        }
    }
}

pub open spec fn kind_of(v: ValueView) -> ValueKind {
    match v {
        ValueView::Uuid(_) => ValueKind::Uuid,
        ValueView::Text(_) => ValueKind::Text,
        ValueView::Bool(_) => ValueKind::Bool,
    }
}

/// Lowercase hexadecimal digit for `n` in `0..16`.
pub open spec fn hex_digit(n: int) -> char {
    seq!['0', '1', '2', '3', '4', '5', '6', '7', '8', '9', 'a', 'b', 'c', 'd', 'e', 'f'][n]
}

/// The `k`-th of the 32 hex digits of `v`, most significant first.
pub open spec fn nibble(v: u128, k: int) -> int {
    (v as int / pow(16, (31 - k) as nat)) % 16
}

/// Position among the hex digits of character `i` of a hyphenated UUID.
pub open spec fn digit_index(i: int) -> int {
    if i < 8 {
        i
    } else if i < 13 {
        i - 1
    } else if i < 18 {
        i - 2
    } else if i < 23 {
        i - 3
    } else {
        i - 4
    }
}

/// The hyphenated lowercase form of a UUID: `8-4-4-4-12` hex digits.
pub open spec fn hyphenated(v: u128) -> Seq<char> {
    Seq::new(
        36,
        |i: int|
            if i == 8 || i == 13 || i == 18 || i == 23 {
                '-'
            } else {
                hex_digit(nibble(v, digit_index(i)))
            },
    )
}

/// What uuid's parser reads from a text: the UUID, or nothing when the text is not one.
pub uninterp spec fn parsed_uuid(text: Seq<char>) -> Option<u128>;

/// Relies on uuid's `Uuid::from_u128` and `Display`: the 128-bit value, big-endian, printed as
/// lowercase hyphenated hex, a form that `Uuid::parse_str` reads back to the same value.
#[verifier::external_body]
fn uuid_to_text(v: u128) -> (r: String)
    ensures
        r@ == hyphenated(v),
        parsed_uuid(r@) == Some(v),
{
    Uuid::from_u128(v).to_string()
}

/// Relies on uuid's `Uuid::parse_str`: the outcome depends on the text alone.
#[verifier::external_body]
fn uuid_from_text(s: &str) -> (r: Option<u128>)
    ensures
        r == parsed_uuid(s@),
{
    match Uuid::parse_str(s) {
        Ok(u) => Some(u.as_u128()),
        Err(_) => None,
    }
}

/// The text form of a value in a URL path segment.
pub open spec fn text_of(v: ValueView) -> Seq<char> {
    match v {
        ValueView::Uuid(u) => hyphenated(u),
        ValueView::Text(t) => t,
        ValueView::Bool(b) => if b {
            "true"@
        } else {
            "false"@
        },
    }
}

/// What a path segment reads as, for a column of the given kind.
pub open spec fn parse_spec(kind: ValueKind, t: Seq<char>) -> Option<ValueView> {
    match kind {
        ValueKind::Uuid => match parsed_uuid(t) {
            Some(u) => Some(ValueView::Uuid(u)),
            None => None,
        },
        ValueKind::Text => Some(ValueView::Text(t)),
        ValueKind::Bool => if t == "true"@ {
            Some(ValueView::Bool(true))
        } else if t == "false"@ {
            Some(ValueView::Bool(false))
        } else {
            None
        },
    }
}

/// Whether two texts hold the same characters.
pub fn same_text(a: &str, b: &str) -> (r: bool)
    ensures
        r == (a@ == b@),
{
    let x = String::from_str(a);
    let y = String::from_str(b);
    x == y
}

impl Value {
    pub fn kind(&self) -> (k: ValueKind)
        ensures
            k == kind_of(self@),
    {
        match self {
            Value::Uuid(_) => ValueKind::Uuid,
            Value::Text(_) => ValueKind::Text,
            Value::Bool(_) => ValueKind::Bool,
        }
    }

    /// A copy of the value.
    pub fn duplicate(&self) -> (r: Value)
        ensures
            r@ == self@,
    {
        match self {
            Value::Uuid(u) => Value::Uuid(*u),
            Value::Text(t) => Value::Text(t.clone()),
            Value::Bool(b) => Value::Bool(*b),
        }
    }

    /// Whether two values are equal: same kind, same content.
    pub fn same(&self, other: &Value) -> (r: bool)
        ensures
            r == (self@ == other@),
    {
        match (self, other) {
            (Value::Uuid(a), Value::Uuid(b)) => *a == *b,
            (Value::Text(a), Value::Text(b)) => same_text(a.as_str(), b.as_str()),
            (Value::Bool(a), Value::Bool(b)) => *a == *b,
            _ => false,
        }
    }

    /// The text that stands for this value in a path segment; parsing it gives the value back.
    pub fn text(&self) -> (r: String)
        ensures
            r@ == text_of(self@),
            parse_spec(kind_of(self@), r@) == Some(self@),
    {
        proof {
            reveal_strlit("true");
            reveal_strlit("false");
            assert("true"@.len() == 4);
            assert("false"@.len() == 5);
        }
        let text = match self {
            Value::Uuid(u) => uuid_to_text(*u),
            Value::Text(t) => t.clone(),
            Value::Bool(b) => if *b {
                String::from_str("true")
            } else {
                String::from_str("false")
            },
        };
        assert(parse_spec(kind_of(self@), text@) =~= Some(self@));
        text
    }

    /// Reads a path segment as a value of the given kind.
    pub fn parse(kind: ValueKind, text: &str) -> (r: Option<Value>)
        ensures
            match r {
                Some(v) => parse_spec(kind, text@) == Some(v@),
                None => parse_spec(kind, text@) is None,
            },
    {
        match kind {
            ValueKind::Uuid => match uuid_from_text(text) {
                Some(u) => Some(Value::Uuid(u)),
                None => None,
            },
            ValueKind::Text => Some(Value::Text(String::from_str(text))),
            ValueKind::Bool => if same_text(text, "true") {
                Some(Value::Bool(true))
            } else if same_text(text, "false") {
                Some(Value::Bool(false))
            } else {
                None
            },
        }
    }
}

/// The view of an optional value.
pub open spec fn opt_view(o: Option<Value>) -> Option<ValueView> {
    match o {
        Some(v) => Some(v@),
        None => None,
    }
}

/// An optional text field as an optional value.
pub open spec fn text_opt(o: Option<String>) -> Option<ValueView> {
    match o {
        Some(s) => Some(ValueView::Text(s@)),
        None => None,
    }
}

/// An optional UUID field as an optional value.
pub open spec fn uuid_opt(o: Option<u128>) -> Option<ValueView> {
    match o {
        Some(u) => Some(ValueView::Uuid(u)),
        None => None,
    }
}

/// An optional flag field as an optional value.
pub open spec fn bool_opt(o: Option<bool>) -> Option<ValueView> {
    match o {
        Some(b) => Some(ValueView::Bool(b)),
        None => None,
    }
}

pub fn text_value(o: &Option<String>) -> (r: Option<Value>)
    ensures
        opt_view(r) == text_opt(*o),
{
    match o {
        Some(s) => Some(Value::Text(s.clone())),
        None => None,
    }
}

pub fn uuid_value(o: &Option<u128>) -> (r: Option<Value>)
    ensures
        opt_view(r) == uuid_opt(*o),
{
    match o {
        Some(u) => Some(Value::Uuid(*u)),
        None => None,
    }
}

pub fn bool_value(o: &Option<bool>) -> (r: Option<Value>)
    ensures
        opt_view(r) == bool_opt(*o),
{
    match o {
        Some(b) => Some(Value::Bool(*b)),
        None => None,
    }
}

} // verus!
