//! The shape of a JSON document as far as chat payload validation reads it:
//! whether it parses, whether it is an object, and for each member its key
//! and, where the member's value is a string, that string.

use serde_json::Value;
use vstd::prelude::*;

verus! {

/// One member of a JSON object: its key, and its value where that is a string.
pub struct JsonMember {
    pub key: String,
    pub text: Option<String>,
}

/// A JSON document read down to its top-level members.
pub enum JsonDocument {
    /// The text is not valid JSON.
    Malformed,
    /// The text is valid JSON but not an object.
    NotObject,
    /// An object, with its members in the order the parser's map yields them.
    Object(Vec<JsonMember>),
}

/// A member as a key and, for a string value, the string.
pub type MemberView = (Seq<char>, Option<Seq<char>>);

/// The mathematical form of a `JsonDocument`.
pub enum JsonShape {
    Malformed,
    NotObject,
    Object(Seq<MemberView>),
}

pub open spec fn option_string_view(o: Option<String>) -> Option<Seq<char>> {
    match o {
        Some(s) => Some(s@),
        None => None,
    }
}

impl JsonMember {
    pub open spec fn view(self) -> MemberView {
        (self.key@, option_string_view(self.text))
    }
}

/// The members of an object, each as a key and an optional string.
pub open spec fn members_view(members: Seq<JsonMember>) -> Seq<MemberView> {
    members.map_values(|m: JsonMember| m.view())
}

impl JsonDocument {
    pub open spec fn view(self) -> JsonShape {
        match self {
            JsonDocument::Malformed => JsonShape::Malformed,
            JsonDocument::NotObject => JsonShape::NotObject,
            JsonDocument::Object(members) => JsonShape::Object(members_view(members@)),
        }
    }
}

/// The shape of what `serde_json::from_str::<serde_json::Value>` parses from `text`.
pub uninterp spec fn json_shape(text: Seq<char>) -> JsonShape;

/// `serde_json::from_str::<Value>(text)`, converted member by member: a parse
/// error becomes `Malformed`, a non-object value `NotObject`, and an object
/// the list of its members with their string values.
#[verifier::external_body]
pub(crate) fn parse_json_document(text: &str) -> (doc: JsonDocument)
    ensures
        doc.view() == json_shape(text@),
{
    match serde_json::from_str::<Value>(text) {
        Err(_) => JsonDocument::Malformed,
        Ok(Value::Object(map)) => {
            let mut members = Vec::new();
            for (key, value) in map {
                let text = match value {
                    Value::String(s) => Some(s),
                    _ => None,
                };
                members.push(JsonMember { key, text });
            }
            JsonDocument::Object(members)
        },
        Ok(_) => JsonDocument::NotObject,
    }
}

/// The value of the first member whose key is `key`, if any.
pub open spec fn member_value(members: Seq<MemberView>, key: Seq<char>) -> Option<Option<Seq<char>>>
    decreases members.len(),
{
    if members.len() == 0 {
        None
    } else if members[0].0 == key {
        Some(members[0].1)
    } else {
        member_value(members.drop_first(), key)
    }
}

proof fn lemma_member_value_skip(members: Seq<MemberView>, key: Seq<char>, i: int)
    requires
        0 <= i <= members.len(),
        forall|j: int| 0 <= j < i ==> (#[trigger] members[j]).0 != key,
    ensures
        member_value(members, key) == member_value(members.subrange(i, members.len() as int), key),
    decreases i,
{
    if i == 0 {
        assert(members.subrange(0, members.len() as int) =~= members);
    } else {
        let rest = members.drop_first();
        assert forall|j: int| 0 <= j < i - 1 implies (#[trigger] rest[j]).0 != key by {
            assert(rest[j] == members[j + 1]);
        }
        lemma_member_value_skip(rest, key, i - 1);
        assert(rest.subrange(i - 1, rest.len() as int) =~= members.subrange(i, members.len() as int));
    }
}

/// The value of the first member of `members` whose key is `key`, as
/// `serde_json::Map::get` finds it.
pub fn find_member(members: &Vec<JsonMember>, key: &String) -> (r: Option<Option<String>>)
    ensures
        match r {
            Some(v) => member_value(members_view(members@), key@)
                == Some(option_string_view(v)),
            None => member_value(members_view(members@), key@) is None,
        },
{
    let ghost ms = members_view(members@);
    let mut i: usize = 0;
    assert(ms.subrange(0, ms.len() as int) =~= ms);
    while i < members.len()
        invariant
            i <= members.len(),
            ms == members_view(members@),
            member_value(ms, key@) == member_value(ms.subrange(i as int, ms.len() as int), key@),
        decreases members.len() - i,
    {
        let ghost rest = ms.subrange(i as int, ms.len() as int);
        assert(rest[0] == members@[i as int].view());
        if members[i].key == *key {
            let v = members[i].text.clone();
            return Some(v);
        }
        proof {
            lemma_member_value_skip(rest, key@, 1);
            assert(rest.subrange(1, rest.len() as int) =~= ms.subrange(i + 1, ms.len() as int));
        }
        i = i + 1;
    }
    None
}

} // verus!
