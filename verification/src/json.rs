//! A JSON document model and the lookups the message logic makes on it.
//!
//! Text is decoded into this model (and encoded from it) by serde_json at the
//! edge of the program; the model keeps what the decisions read.
use vstd::prelude::*;
use crate::text::str_eq;

verus! {

/// A JSON number, kept as the decoder classified it.
pub enum JsonNumber {
    Unsigned(u64),
    Signed(i64),
    /// A number with a fraction or exponent, in its decimal notation.
    Float(String),
}

/// A JSON value. Object members keep their order; keys occur once.
pub enum Json {
    Null,
    Bool(bool),
    Number(JsonNumber),
    Str(String),
    Array(Vec<Json>),
    Object(Vec<(String, Json)>),
}

/// The value of the first member named `key`.
pub open spec fn lookup(fields: Seq<(String, Json)>, key: Seq<char>) -> Option<Json>
    decreases fields.len(),
{
    if fields.len() == 0 {
        None
    } else if fields[0].0@ == key {
        Some(fields[0].1)
    } else {
        lookup(fields.drop_first(), key)
    }
}

impl Json {
    /// The member `key` of an object; `None` for a missing key or a non-object.
    pub open spec fn field(self, key: Seq<char>) -> Option<Json> {
        match self {
            Json::Object(f) => lookup(f@, key),
            _ => None,
        }
    }

    /// `value[key]`: the member, or `Null` when there is none.
    pub open spec fn at(self, key: Seq<char>) -> Json {
        match self.field(key) {
            Some(v) => v,
            None => Json::Null,
        }
    }

    /// The characters of a string value.
    pub open spec fn str_view(self) -> Option<Seq<char>> {
        match self {
            Json::Str(s) => Some(s@),
            _ => None,
        }
    }

    /// `value == text`: a string value with exactly these characters.
    pub open spec fn is_text(self, t: Seq<char>) -> bool {
        self.str_view() == Some(t)
    }

    /// The boolean of a boolean value.
    pub open spec fn bool_value(self) -> Option<bool> {
        match self {
            Json::Bool(b) => Some(b),
            _ => None,
        }
    }

    /// The elements of an array value.
    pub open spec fn items(self) -> Option<Seq<Json>> {
        match self {
            Json::Array(v) => Some(v@),
            _ => None,
        }
    }

    /// The member `key` of an object.
    pub fn get(&self, key: &str) -> (r: Option<&Json>)
        ensures
            r is None <==> self.field(key@) is None,
            r matches Some(v) ==> self.field(key@) == Some(*v),
    {
        match self {
            Json::Object(fields) => {
                let n = fields.len();
                let mut i: usize = 0;
                assert(fields@.skip(0) =~= fields@);
                while i < n
                    invariant
                        n == fields@.len(),
                        i <= n,
                        lookup(fields@, key@) == lookup(fields@.skip(i as int), key@),
                        self.field(key@) == lookup(fields@, key@),
                    decreases n - i,
                {
                    let ghost rest = fields@.skip(i as int);
                    assert(rest[0] == fields@[i as int]);
                    assert(rest.drop_first() =~= fields@.skip(i + 1));
                    if str_eq(fields[i].0.as_str(), key) {
                        assert(rest.len() > 0);
                        assert(lookup(rest, key@) == Some(rest[0].1));
                        return Some(&fields[i].1);
                    }
                    i += 1;
                }
                assert(fields@.skip(i as int).len() == 0);
                None
            },
            _ => None,
        }
    }

    /// `value.as_str()`.
    pub fn as_str(&self) -> (r: Option<&str>)
        ensures
            r is None <==> self.str_view() is None,
            r matches Some(t) ==> self.str_view() == Some(t@),
    {
        match self {
            Json::Str(s) => Some(s.as_str()),
            _ => None,
        }
    }

    /// `value[key].as_str()`.
    pub fn str_at(&self, key: &str) -> (r: Option<&str>)
        ensures
            r is None <==> self.at(key@).str_view() is None,
            r matches Some(t) ==> self.at(key@).str_view() == Some(t@),
    {
        match self.get(key) {
            Some(v) => v.as_str(),
            None => None,
        }
    }

    /// `value[key] == t`.
    pub fn text_at_is(&self, key: &str, t: &str) -> (r: bool)
        ensures
            r == self.at(key@).is_text(t@),
    {
        match self.str_at(key) {
            Some(s) => str_eq(s, t),
            None => false,
        }
    }

    /// `value[key].as_bool()`.
    pub fn bool_at(&self, key: &str) -> (r: Option<bool>)
        ensures
            r == self.at(key@).bool_value(),
    {
        match self.get(key) {
            Some(Json::Bool(b)) => Some(*b),
            _ => None,
        }
    }

    /// `value[key].as_array()`.
    pub fn array_at(&self, key: &str) -> (r: Option<&Vec<Json>>)
        ensures
            r is None <==> self.at(key@).items() is None,
            r matches Some(v) ==> self.at(key@).items() == Some(v@),
    {
        match self.get(key) {
            Some(Json::Array(v)) => Some(v),
            _ => None,
        }
    }
}

/// A reply awaited from the exchange, as the connection delivered it.
pub enum Reply {
    /// Nothing arrived within the waiting time.
    TimedOut,
    /// The channel closed before anything arrived.
    Closed,
    /// A frame that is not text.
    NonText,
    /// Text that is not JSON, with the decoder's description of the fault.
    Malformed(String),
    /// Text decoded as JSON.
    Parsed(Json),
}

} // verus!
