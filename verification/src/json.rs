//! A JSON document model that the library reads and builds: registry
//! indexes, release descriptions, JSON-RPC requests and responses.
//!
//! Numbers are kept as their JSON text, so that an identifier such as
//! `7` or `-32700` travels through the library unchanged.
use vstd::prelude::*;
use crate::text::{str_eq, to_owned};
use crate::manifest::opt_view;

verus! {

/// A JSON value. Object entries keep their order; keys are distinct when the
/// value comes from a parsed document.
#[derive(Debug)]
pub enum JsonValue {
    Null,
    Bool(bool),
    Number(String),
    Str(String),
    Array(Vec<JsonValue>),
    Object(Vec<(String, JsonValue)>),
}

/// The mathematical content of a [`JsonValue`].
pub enum JsonSpec {
    Null,
    Bool(bool),
    Number(Seq<char>),
    Str(Seq<char>),
    Array(Seq<JsonSpec>),
    Object(Seq<(Seq<char>, JsonSpec)>),
}

/// The content of a sequence of JSON values.
pub open spec fn deep_seq(s: Seq<JsonValue>) -> Seq<JsonSpec>
    decreases s,
{
    if s.len() == 0 {
        Seq::empty()
    } else {
        seq![s[0].deep()] + deep_seq(s.drop_first())
    }
}

/// The content of a sequence of object entries.
pub open spec fn deep_entries(s: Seq<(String, JsonValue)>) -> Seq<(Seq<char>, JsonSpec)>
    decreases s,
{
    if s.len() == 0 {
        Seq::empty()
    } else {
        seq![(s[0].0@, s[0].1.deep())] + deep_entries(s.drop_first())
    }
}

/// The number of nodes in a sequence of values.
pub open spec fn seq_size(s: Seq<JsonValue>) -> nat
    decreases s,
{
    if s.len() == 0 {
        0
    } else {
        s[0].size() + seq_size(s.drop_first())
    }
}

/// The number of nodes in a sequence of entries.
pub open spec fn entries_size(s: Seq<(String, JsonValue)>) -> nat
    decreases s,
{
    if s.len() == 0 {
        0
    } else {
        s[0].1.size() + entries_size(s.drop_first())
    }
}

/// Each element is no larger than the whole sequence.
pub proof fn lemma_seq_size_element(s: Seq<JsonValue>, i: int)
    requires
        0 <= i < s.len(),
    ensures
        s[i].size() <= seq_size(s),
    decreases s.len(),
{
    if i > 0 {
        lemma_seq_size_element(s.drop_first(), i - 1);
    }
}

/// Each entry's value is no larger than the whole sequence.
pub proof fn lemma_entries_size_element(s: Seq<(String, JsonValue)>, i: int)
    requires
        0 <= i < s.len(),
    ensures
        s[i].1.size() <= entries_size(s),
    decreases s.len(),
{
    if i > 0 {
        lemma_entries_size_element(s.drop_first(), i - 1);
    }
}

/// The value stored under `key` in a sequence of entries (the first one).
pub open spec fn entry_lookup(m: Seq<(String, JsonValue)>, key: Seq<char>) -> Option<JsonValue>
    decreases m.len(),
{
    if m.len() == 0 {
        None
    } else if m[0].0@ == key {
        Some(m[0].1)
    } else {
        entry_lookup(m.drop_first(), key)
    }
}

/// The text of a JSON string, if the value is one.
pub open spec fn str_of(v: Option<JsonValue>) -> Option<Seq<char>> {
    match v {
        Some(JsonValue::Str(s)) => Some(s@),
        _ => None,
    }
}

/// The text of a JSON string, or `default`.
pub open spec fn str_or(v: Option<JsonValue>, default: Seq<char>) -> Seq<char> {
    match str_of(v) {
        Some(s) => s,
        None => default,
    }
}

impl JsonValue {
    /// The mathematical content of this value.
    pub open spec fn deep(self) -> JsonSpec
        decreases self,
    {
        match self {
            JsonValue::Null => JsonSpec::Null,
            JsonValue::Bool(b) => JsonSpec::Bool(b),
            JsonValue::Number(n) => JsonSpec::Number(n@),
            JsonValue::Str(s) => JsonSpec::Str(s@),
            JsonValue::Array(v) => JsonSpec::Array(deep_seq(v@)),
            JsonValue::Object(m) => JsonSpec::Object(deep_entries(m@)),
        }
    }

    /// The number of nodes in this value.
    pub open spec fn size(self) -> nat
        decreases self,
    {
        match self {
            JsonValue::Array(v) => 1 + seq_size(v@),
            JsonValue::Object(m) => 1 + entries_size(m@),
            _ => 1,
        }
    }

    /// The value under `key` when this is an object.
    pub open spec fn field(self, key: Seq<char>) -> Option<JsonValue> {
        match self {
            JsonValue::Object(m) => entry_lookup(m@, key),
            _ => None,
        }
    }

    /// Looks up `key` in an object; any other value has no fields.
    pub fn get(&self, key: &str) -> (r: Option<&JsonValue>)
        ensures
            match r {
                Some(v) => self.field(key@) == Some(*v),
                None => self.field(key@) is None,
            },
    {
        match self {
            JsonValue::Object(m) => {
                let mut i: usize = 0;
                assert(m@.subrange(0, m@.len() as int) =~= m@);
                while i < m.len()
                    invariant
                        *self == JsonValue::Object(*m),
                        i <= m@.len(),
                        entry_lookup(m@, key@) == entry_lookup(m@.subrange(i as int, m@.len() as int), key@),
                    decreases m.len() - i,
                {
                    let ghost rest = m@.subrange(i as int, m@.len() as int);
                    assert(rest[0] == m@[i as int]);
                    if str_eq(m[i].0.as_str(), key) {
                        return Some(&m[i].1);
                    }
                    assert(rest.drop_first() =~= m@.subrange(i + 1, m@.len() as int));
                    i = i + 1;
                }
                None
            },
            _ => None,
        }
    }

    /// The text of a JSON string.
    pub fn as_str(&self) -> (r: Option<&str>)
        ensures
            match r {
                Some(t) => str_of(Some(*self)) == Some(t@),
                None => str_of(Some(*self)) is None,
            },
    {
        match self {
            JsonValue::Str(s) => Some(s.as_str()),
            _ => None,
        }
    }

    /// The elements of a JSON array.
    pub fn as_array(&self) -> (r: Option<&Vec<JsonValue>>)
        ensures
            match r {
                Some(v) => *self == JsonValue::Array(*v),
                None => !(self is Array),
            },
    {
        match self {
            JsonValue::Array(v) => Some(v),
            _ => None,
        }
    }

    /// The value of a JSON boolean.
    pub fn as_bool(&self) -> (r: Option<bool>)
        ensures
            match r {
                Some(b) => *self == JsonValue::Bool(b),
                None => !(self is Bool),
            },
    {
        match self {
            JsonValue::Bool(b) => Some(*b),
            _ => None,
        }
    }

    /// Whether this is a JSON object.
    pub fn is_object(&self) -> (r: bool)
        ensures
            r == self is Object,
    {
        match self {
            JsonValue::Object(_) => true,
            _ => false,
        }
    }

    /// A copy of this value with the same content.
    pub fn duplicate(&self) -> (r: JsonValue)
        ensures
            r.deep() == self.deep(),
        decreases self.size(),
    {
        match self {
            JsonValue::Null => JsonValue::Null,
            JsonValue::Bool(b) => JsonValue::Bool(*b),
            JsonValue::Number(n) => JsonValue::Number(n.clone()),
            JsonValue::Str(s) => JsonValue::Str(s.clone()),
            JsonValue::Array(v) => {
                let mut out: Vec<JsonValue> = Vec::new();
                let mut i: usize = 0;
                while i < v.len()
                    invariant
                        *self == JsonValue::Array(*v),
                        i <= v@.len(),
                        deep_seq(out@) == deep_seq(v@.subrange(0, i as int)),
                    decreases v.len() - i,
                {
                    proof {
                        lemma_seq_size_element(v@, i as int);
                    }
                    let e = v[i].duplicate();
                    proof {
                        lemma_deep_seq_push(out@, e);
                        lemma_deep_seq_push(v@.subrange(0, i as int), v@[i as int]);
                        assert(v@.subrange(0, i as int).push(v@[i as int]) =~= v@.subrange(0, i + 1));
                    }
                    out.push(e);
                    i = i + 1;
                }
                assert(v@.subrange(0, v@.len() as int) =~= v@);
                JsonValue::Array(out)
            },
            JsonValue::Object(m) => {
                let mut out: Vec<(String, JsonValue)> = Vec::new();
                let mut i: usize = 0;
                while i < m.len()
                    invariant
                        *self == JsonValue::Object(*m),
                        i <= m@.len(),
                        deep_entries(out@) == deep_entries(m@.subrange(0, i as int)),
                    decreases m.len() - i,
                {
                    let k = m[i].0.clone();
                    proof {
                        lemma_entries_size_element(m@, i as int);
                    }
                    let e = m[i].1.duplicate();
                    proof {
                        lemma_deep_entries_push(out@, (k, e));
                        lemma_deep_entries_push(m@.subrange(0, i as int), m@[i as int]);
                        assert(m@.subrange(0, i as int).push(m@[i as int]) =~= m@.subrange(0, i + 1));
                    }
                    out.push((k, e));
                    i = i + 1;
                }
                assert(m@.subrange(0, m@.len() as int) =~= m@);
                JsonValue::Object(out)
            },
        }
    }
}

/// The content of a sequence grows by the content of a pushed value.
pub proof fn lemma_deep_seq_push(s: Seq<JsonValue>, v: JsonValue)
    ensures
        deep_seq(s.push(v)) == deep_seq(s).push(v.deep()),
    decreases s.len(),
{
    if s.len() == 0 {
        reveal_with_fuel(deep_seq, 2);
        assert(s.push(v).drop_first() =~= Seq::<JsonValue>::empty());
        assert(deep_seq(s.push(v)) =~= seq![v.deep()]);
    } else {
        lemma_deep_seq_push(s.drop_first(), v);
        assert(s.push(v).drop_first() =~= s.drop_first().push(v));
        assert(deep_seq(s.push(v)) =~= deep_seq(s).push(v.deep()));
    }
}

/// The content of entries grows by the content of a pushed entry.
pub proof fn lemma_deep_entries_push(s: Seq<(String, JsonValue)>, e: (String, JsonValue))
    ensures
        deep_entries(s.push(e)) == deep_entries(s).push((e.0@, e.1.deep())),
    decreases s.len(),
{
    if s.len() == 0 {
        reveal_with_fuel(deep_entries, 2);
        assert(s.push(e).drop_first() =~= Seq::<(String, JsonValue)>::empty());
        assert(deep_entries(s.push(e)) =~= seq![(e.0@, e.1.deep())]);
    } else {
        lemma_deep_entries_push(s.drop_first(), e);
        assert(s.push(e).drop_first() =~= s.drop_first().push(e));
        assert(deep_entries(s.push(e)) =~= deep_entries(s).push((e.0@, e.1.deep())));
    }
}

/// A JSON string holding the text `s`.
pub fn json_str(s: &str) -> (r: JsonValue)
    ensures
        r.deep() == JsonSpec::Str(s@),
        str_of(Some(r)) == Some(s@),
{
    JsonValue::Str(to_owned(s))
}

/// A JSON number written as `text`.
pub fn json_number(text: &str) -> (r: JsonValue)
    ensures
        r.deep() == JsonSpec::Number(text@),
{
    JsonValue::Number(to_owned(text))
}

/// The value an optional reference points to.
pub open spec fn opt_deref(o: Option<&JsonValue>) -> Option<JsonValue> {
    match o {
        Some(v) => Some(*v),
        None => None,
    }
}

/// The field `key` of an optional value; nothing when there is no value.
pub open spec fn opt_field(v: Option<JsonValue>, key: Seq<char>) -> Option<JsonValue> {
    match v {
        Some(x) => x.field(key),
        None => None,
    }
}

/// The entries of a JSON object; none for any other value.
pub open spec fn object_entries(v: JsonValue) -> Seq<(String, JsonValue)> {
    match v {
        JsonValue::Object(m) => m@,
        _ => Seq::empty(),
    }
}

/// Looks up `key` in an optional value.
pub fn opt_get<'a>(v: Option<&'a JsonValue>, key: &str) -> (r: Option<&'a JsonValue>)
    ensures
        opt_deref(r) == opt_field(opt_deref(v), key@),
{
    match v {
        Some(x) => x.get(key),
        None => None,
    }
}

/// The text of an optional JSON string.
pub fn opt_str<'a>(v: Option<&'a JsonValue>) -> (r: Option<&'a str>)
    ensures
        match r {
            Some(t) => str_of(opt_deref(v)) == Some(t@),
            None => str_of(opt_deref(v)) is None,
        },
{
    match v {
        Some(x) => x.as_str(),
        None => None,
    }
}

/// The text of an optional JSON string, or `default`.
pub fn str_or_exec(v: Option<&JsonValue>, default: &str) -> (r: String)
    ensures
        r@ == str_or(opt_deref(v), default@),
{
    match opt_str(v) {
        Some(t) => to_owned(t),
        None => to_owned(default),
    }
}

/// An owned copy of the text of an optional JSON string.
pub fn opt_string(v: Option<&JsonValue>) -> (r: Option<String>)
    ensures
        opt_view(r) == str_of(opt_deref(v)),
{
    match opt_str(v) {
        Some(t) => Some(to_owned(t)),
        None => None,
    }
}

} // verus!
