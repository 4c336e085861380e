//! JSON values as the exporter reads them.
use vstd::prelude::*;

verus! {

/// A JSON number, held by the two readings that columns take of it.
#[derive(Clone, Copy, Debug)]
pub struct JsonNumber {
    /// The value as a 64-bit signed integer, where it is one.
    pub int: Option<i64>,
    /// The IEEE 754 double-precision bit pattern of the value, where it has one.
    pub bits: Option<u64>,
}

/// A JSON value.
#[derive(Debug)]
pub enum Json {
    Null,
    Bool(bool),
    Number(JsonNumber),
    Text(String),
    Array(Vec<Json>),
    Object(Vec<(String, Json)>),
}

/// The value of the first member called `key`, if there is one.
pub open spec fn first_member(members: Seq<(String, Json)>, key: Seq<char>) -> Option<Json>
    decreases members.len(),
{
    if members.len() == 0 {
        None
    } else if members[0].0@ == key {
        Some(members[0].1)
    } else {
        first_member(members.drop_first(), key)
    }
}

impl Json {
    /// What this value holds under `key`: a member if it is an object that has one,
    /// and nothing for any other value.
    pub open spec fn member(self, key: Seq<char>) -> Option<Json> {
        match self {
            Json::Object(members) => first_member(members@, key),
            _ => None,
        }
    }

    /// The text under `key`, if there is a text.
    pub open spec fn member_text(self, key: Seq<char>) -> Option<Seq<char>> {
        match self.member(key) {
            Some(Json::Text(text)) => Some(text@),
            _ => None,
        }
    }

    /// Looks a member up by name.
    pub fn get(&self, key: &str) -> (value: Option<&Json>)
        ensures
            match value {
                Some(v) => self.member(key@) == Some(*v),
                None => self.member(key@) is None,
            },
    {
        match self {
            Json::Object(members) => {
                let wanted: String = key.to_owned();
                let mut i: usize = 0;
                assert(members@.skip(0) =~= members@);
                while i < members.len()
                    invariant
                        i <= members.len(),
                        wanted@ == key@,
                        self.member(key@) == first_member(members@.skip(i as int), key@),
                    decreases members.len() - i,
                {
                    proof {
                        assert(members@.skip(i as int)[0] == members@[i as int]);
                        assert(members@.skip(i as int).drop_first() =~= members@.skip(i + 1));
                    }
                    if members[i].0 == wanted {
                        return Some(&members[i].1);
                    }
                    i = i + 1;
                }
                None
            },
            _ => None,
        }
    }
}

/// What is looked up under a key is the member that has it: the first of them where several
/// do.
pub proof fn law_lookup_gives_the_member(members: Vec<(String, Json)>, key: Seq<char>, at: int)
    requires
        0 <= at < members.len(),
        members@[at].0@ == key,
        forall|j: int| 0 <= j < at ==> (#[trigger] members@[j]).0@ != key,
    ensures
        Json::Object(members).member(key) == Some(members@[at].1),
        Json::Object(members).member_text(key) == (match members@[at].1 {
            Json::Text(text) => Some(text@),
            _ => None,
        }),
{
    lemma_first_member(members@, key, at);
}

/// Nothing is found under a key that no member has, nor in a value that is no object.
pub proof fn law_lookup_without_the_member(value: Json, key: Seq<char>)
    requires
        value matches Json::Object(members) ==> forall|j: int|
            0 <= j < members.len() ==> (#[trigger] members@[j]).0@ != key,
    ensures
        value.member(key) is None,
        value.member_text(key) is None,
{
    if let Json::Object(members) = value {
        lemma_no_first_member(members@, key);
    }
}

proof fn lemma_first_member(members: Seq<(String, Json)>, key: Seq<char>, at: int)
    requires
        0 <= at < members.len(),
        members[at].0@ == key,
        forall|j: int| 0 <= j < at ==> (#[trigger] members[j]).0@ != key,
    ensures
        first_member(members, key) == Some(members[at].1),
    decreases members.len(),
{
    if at > 0 {
        let rest = members.drop_first();
        assert(members[0].0@ != key);
        assert forall|j: int| 0 <= j < at - 1 implies (#[trigger] rest[j]).0@ != key by {
            assert(rest[j] == members[j + 1]);
        }
        lemma_first_member(rest, key, at - 1);
    }
}

proof fn lemma_no_first_member(members: Seq<(String, Json)>, key: Seq<char>)
    requires
        forall|j: int| 0 <= j < members.len() ==> (#[trigger] members[j]).0@ != key,
    ensures
        first_member(members, key) is None,
    decreases members.len(),
{
    if members.len() > 0 {
        let rest = members.drop_first();
        assert forall|j: int| 0 <= j < rest.len() implies (#[trigger] rest[j]).0@ != key by {
            assert(rest[j] == members[j + 1]);
        }
        lemma_no_first_member(rest, key);
    }
}

} // verus!
