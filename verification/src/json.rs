//! A JSON document as the bridge reads it from herdr and from MiMo Code's
//! trusted-workspaces file.

use vstd::prelude::*;

verus! {

/// A JSON value. Numbers are kept as their textual form; objects are their
/// entries in order.
pub enum Json {
    Null,
    Bool(bool),
    Number(String),
    Str(String),
    Array(Vec<Json>),
    Object(Vec<(String, Json)>),
}

/// The value of the first entry named `key`.
pub open spec fn lookup(entries: Seq<(String, Json)>, key: Seq<char>) -> Option<Json>
    decreases entries.len(),
{
    if entries.len() == 0 {
        None
    } else if entries[0].0@ == key {
        Some(entries[0].1)
    } else {
        lookup(entries.drop_first(), key)
    }
}

impl Json {
    /// The member `key` of an object; nothing for any other value.
    pub open spec fn field(self, key: Seq<char>) -> Option<Json> {
        match self {
            Json::Object(entries) => lookup(entries@, key),
            _ => None,
        }
    }

    /// The characters of a string value.
    pub open spec fn str_value(self) -> Option<Seq<char>> {
        match self {
            Json::Str(s) => Some(s@),
            _ => None,
        }
    }

    /// The flag of a boolean value.
    pub open spec fn bool_value(self) -> Option<bool> {
        match self {
            Json::Bool(b) => Some(b),
            _ => None,
        }
    }

    /// The elements of an array value.
    pub open spec fn array_value(self) -> Option<Seq<Json>> {
        match self {
            Json::Array(v) => Some(v@),
            _ => None,
        }
    }

    /// The member `key` of an object (`serde_json::Value::get` with a string key).
    pub fn get(&self, key: &str) -> (r: Option<&Json>)
        ensures
            match r {
                Some(v) => self.field(key@) == Some(*v),
                None => self.field(key@) is None,
            },
    {
        match self {
            Json::Object(entries) => {
                let mut i: usize = 0;
                assert(entries@.skip(0) =~= entries@);
                while i < entries.len()
                    invariant
                        i <= entries@.len(),
                        self.field(key@) == lookup(entries@, key@),
                        lookup(entries@, key@) == lookup(entries@.skip(i as int), key@),
                    decreases entries@.len() - i,
                {
                    assert(entries@.skip(i as int).drop_first() =~= entries@.skip(i + 1));
                    assert(entries@.skip(i as int)[0] == entries@[i as int]);
                    if string_eq(&entries[i].0, key) {
                        return Some(&entries[i].1);
                    }
                    i = i + 1;
                }
                None
            },
            _ => None,
        }
    }

    /// The string held by a string value.
    pub fn as_str(&self) -> (r: Option<&str>)
        ensures
            match r {
                Some(s) => self.str_value() == Some(s@),
                None => self.str_value() is None,
            },
    {
        match self {
            Json::Str(s) => Some(s.as_str()),
            _ => None,
        }
    }

    /// The flag held by a boolean value.
    pub fn as_bool(&self) -> (r: Option<bool>)
        ensures
            r == self.bool_value(),
    {
        match self {
            Json::Bool(b) => Some(*b),
            _ => None,
        }
    }

    /// The elements held by an array value.
    pub fn as_array(&self) -> (r: Option<&Vec<Json>>)
        ensures
            match r {
                Some(v) => self.array_value() == Some(v@),
                None => self.array_value() is None,
            },
    {
        match self {
            Json::Array(v) => Some(v),
            _ => None,
        }
    }
}

/// Whether `a` and `b` hold the same characters.
pub fn string_eq(a: &String, b: &str) -> (r: bool)
    ensures
        r == (a@ == b@),
{
    str_eq(a.as_str(), b)
}

/// Whether `a` and `b` hold the same characters.
pub fn str_eq(a: &str, b: &str) -> (r: bool)
    ensures
        r == (a@ == b@),
{
    let x = crate::text::chars_of(a);
    let y = crate::text::chars_of(b);
    if x.len() != y.len() {
        return false;
    }
    let mut i: usize = 0;
    while i < x.len()
        invariant
            x@ == a@,
            y@ == b@,
            x@.len() == y@.len(),
            i <= x@.len(),
            forall|k: int| 0 <= k < i ==> x@[k] == y@[k],
        decreases x@.len() - i,
    {
        if x[i] != y[i] {
            return false;
        }
        i = i + 1;
    }
    assert(x@ =~= y@);
    true
}

/// An object lookup finds the first entry with the key: it gives that
/// entry's value, and nothing exactly when no entry has the key.
pub proof fn lemma_lookup_first(e: Seq<(String, Json)>, key: Seq<char>)
    ensures
        match lookup(e, key) {
            Some(v) => exists|i: int|
                0 <= i < e.len() && (#[trigger] e[i]).0@ == key && e[i].1 == v && forall|j: int|
                    0 <= j < i ==> (#[trigger] e[j]).0@ != key,
            None => forall|i: int| 0 <= i < e.len() ==> (#[trigger] e[i]).0@ != key,
        },
    decreases e.len(),
{
    if e.len() > 0 && e[0].0@ != key {
        let t = e.drop_first();
        lemma_lookup_first(t, key);
        match lookup(t, key) {
            Some(v) => {
                let i = choose|i: int|
                    0 <= i < t.len() && (#[trigger] t[i]).0@ == key && t[i].1 == v && forall|j: int|
                        0 <= j < i ==> (#[trigger] t[j]).0@ != key;
                assert(e[i + 1] == t[i]);
                assert forall|j: int| 0 <= j < i + 1 implies (#[trigger] e[j]).0@ != key by {
                    if j > 0 {
                        assert(e[j] == t[j - 1]);
                    }
                }
            },
            None => {
                assert forall|i: int| 0 <= i < e.len() implies (#[trigger] e[i]).0@ != key by {
                    if i > 0 {
                        assert(e[i] == t[i - 1]);
                    }
                }
            },
        }
    }
}

} // verus!
