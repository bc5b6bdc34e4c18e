//! JSON values, as far as the library reads and writes them.
use vstd::prelude::*;

verus! {

/// A JSON value. An object keeps its members in a list, and a key means its first member of that
/// name. The value of a number that is no integer of 64 bits is not kept.
#[derive(Debug, PartialEq, Eq)]
pub enum Json {
    Null,
    Bool(bool),
    /// An integer that is not negative.
    PosInt(u64),
    /// A negative integer.
    NegInt(i64),
    /// Any other number.
    Float,
    Text(String),
    Array(Vec<Json>),
    Object(Vec<(String, Json)>),
}

/// Whether the first member named `key` stands at index `i`.
pub open spec fn is_first_member(members: Seq<(String, Json)>, key: Seq<char>, i: int) -> bool {
    &&& 0 <= i < members.len()
    &&& members[i].0@ == key
    &&& forall|j: int| 0 <= j < i ==> (#[trigger] members[j]).0@ != key
}

impl Json {
    /// The value under `key`: `None` where this is no object or has no such member.
    pub open spec fn member(self, key: Seq<char>) -> Option<Json> {
        match self {
            Json::Object(members) => if exists|i: int| is_first_member(members@, key, i) {
                Some(members@[choose|i: int| is_first_member(members@, key, i)].1)
            } else {
                None
            },
            _ => None,
        }
    }

    /// The number that this is, where it is an integer that is not negative.
    pub open spec fn number(self) -> Option<u64> {
        match self {
            Json::PosInt(n) => Some(n),
            _ => None,
        }
    }

    /// The number under `key`.
    pub open spec fn number_member(self, key: Seq<char>) -> Option<u64> {
        match self.member(key) {
            Some(value) => value.number(),
            None => None,
        }
    }

    /// The text that this is.
    pub open spec fn text(self) -> Option<Seq<char>> {
        match self {
            Json::Text(s) => Some(s@),
            _ => None,
        }
    }

    /// Looks up the value under `key`.
    pub fn get(&self, key: &str) -> (res: Option<&Json>)
        ensures
            match res {
                Some(value) => self.member(key@) == Some(*value),
                None => self.member(key@) is None,
            },
    {
        match self {
            Json::Object(members) => {
                let wanted = key.to_string();
                let mut i: usize = 0;
                while i < members.len()
                    invariant
                        i <= members.len(),
                        wanted@ == key@,
                        *self == Json::Object(*members),
                        forall|j: int| 0 <= j < i ==> (#[trigger] members@[j]).0@ != key@,
                    decreases members.len() - i,
                {
                    if members[i].0 == wanted {
                        assert(is_first_member(members@, key@, i as int));
                        return Some(&members[i].1);
                    }
                    i = i + 1;
                }
                None
            },
            _ => None,
        }
    }

    /// The number that this is, where it is an integer that is not negative.
    pub fn as_u64(&self) -> (res: Option<u64>)
        ensures
            res == self.number(),
    {
        match self {
            Json::PosInt(n) => Some(*n),
            _ => None,
        }
    }

    /// The number under `key`.
    pub fn get_u64(&self, key: &str) -> (res: Option<u64>)
        ensures
            res == self.number_member(key@),
    {
        match self.get(key) {
            Some(value) => value.as_u64(),
            None => None,
        }
    }

    /// The text that this is.
    pub fn as_str(&self) -> (res: Option<&str>)
        ensures
            match res {
                Some(s) => self.text() == Some(s@),
                None => self.text() is None,
            },
    {
        match self {
            Json::Text(s) => Some(s.as_str()),
            _ => None,
        }
    }
}

} // verus!
