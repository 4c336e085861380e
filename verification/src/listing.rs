//! What is shown of the objects that a user can see.
use crate::json::{law_lookup_gives_the_member, law_lookup_without_the_member, Json};
use vstd::prelude::*;
use vstd::string::*;

verus! {

/// An object as Salesforce lists it, as far as it is shown.
#[derive(Debug)]
pub struct ObjectInfo {
    pub name: String,
    pub label: String,
    pub label_plural: String,
    pub queryable: bool,
    pub custom: bool,
    pub createable: bool,
    pub updateable: bool,
    pub deletable: bool,
    pub key_prefix: Option<String>,
}

/// Whether a value is the given text, or null where there is none.
pub open spec fn is_text_or_null(value: Json, text: Option<Seq<char>>) -> bool {
    match text {
        Some(text) => value matches Json::Text(t) && t@ == text,
        None => value is Null,
    }
}

/// Whether `members` are what is shown of an object: its names, what can be done with it,
/// and the prefix of its record ids.
pub open spec fn shows_object(members: Seq<(String, Json)>, object: ObjectInfo) -> bool {
    &&& members.len() == 9
    &&& members[0].0@ == "name"@ && is_text_or_null(members[0].1, Some(object.name@))
    &&& members[1].0@ == "label"@ && is_text_or_null(members[1].1, Some(object.label@))
    &&& members[2].0@ == "label_plural"@ && is_text_or_null(
        members[2].1,
        Some(object.label_plural@),
    )
    &&& members[3].0@ == "queryable"@ && members[3].1 == Json::Bool(object.queryable)
    &&& members[4].0@ == "custom"@ && members[4].1 == Json::Bool(object.custom)
    &&& members[5].0@ == "createable"@ && members[5].1 == Json::Bool(object.createable)
    &&& members[6].0@ == "updateable"@ && members[6].1 == Json::Bool(object.updateable)
    &&& members[7].0@ == "deletable"@ && members[7].1 == Json::Bool(object.deletable)
    &&& members[8].0@ == "key_prefix"@ && is_text_or_null(
        members[8].1,
        object.key_prefix.deep_view(),
    )
}

/// Makes what is shown of an object.
pub fn list_object(object: &ObjectInfo) -> (shown: Json)
    ensures
        shown matches Json::Object(members) && shows_object(members@, *object),
{
    let mut members: Vec<(String, Json)> = Vec::new();
    members.push(("name".to_owned(), Json::Text(object.name.clone())));
    members.push(("label".to_owned(), Json::Text(object.label.clone())));
    members.push(("label_plural".to_owned(), Json::Text(object.label_plural.clone())));
    members.push(("queryable".to_owned(), Json::Bool(object.queryable)));
    members.push(("custom".to_owned(), Json::Bool(object.custom)));
    members.push(("createable".to_owned(), Json::Bool(object.createable)));
    members.push(("updateable".to_owned(), Json::Bool(object.updateable)));
    members.push(("deletable".to_owned(), Json::Bool(object.deletable)));
    let key_prefix: Json = match &object.key_prefix {
        Some(prefix) => Json::Text(prefix.clone()),
        None => Json::Null,
    };
    members.push(("key_prefix".to_owned(), key_prefix));
    Json::Object(members)
}

/// Makes what is shown of objects, one for each, in their order.
pub fn list_objects(objects: &Vec<ObjectInfo>) -> (shown: Vec<Json>)
    ensures
        shown.len() == objects.len(),
        forall|i: int|
            0 <= i < objects.len() ==> (#[trigger] shown@[i] matches Json::Object(members)
                && shows_object(members@, objects@[i])),
{
    let mut shown: Vec<Json> = Vec::new();
    let mut i: usize = 0;
    while i < objects.len()
        invariant
            i <= objects.len(),
            shown.len() == i,
            forall|j: int|
                0 <= j < i ==> (#[trigger] shown@[j] matches Json::Object(members)
                    && shows_object(members@, objects@[j])),
        decreases objects.len() - i,
    {
        shown.push(list_object(&objects[i]));
        i = i + 1;
    }
    shown
}

/// Under the name of each property stands, in what is shown of an object, that property of
/// the object itself, and under any other name nothing does.
pub proof fn law_shown_properties_are_those_of_the_object(
    shown: Json,
    object: ObjectInfo,
    other: Seq<char>,
)
    requires
        shown matches Json::Object(members) && shows_object(members@, object),
    ensures
        shown.member_text("name"@) == Some(object.name@),
        shown.member_text("label"@) == Some(object.label@),
        shown.member_text("label_plural"@) == Some(object.label_plural@),
        shown.member("queryable"@) == Some(Json::Bool(object.queryable)),
        shown.member("custom"@) == Some(Json::Bool(object.custom)),
        shown.member("createable"@) == Some(Json::Bool(object.createable)),
        shown.member("updateable"@) == Some(Json::Bool(object.updateable)),
        shown.member("deletable"@) == Some(Json::Bool(object.deletable)),
        object.key_prefix matches Some(prefix) ==> shown.member_text("key_prefix"@) == Some(
            prefix@,
        ),
        object.key_prefix is None ==> shown.member("key_prefix"@) == Some(Json::Null),
        shown.member(other) is Some ==> seq![
            "name"@,
            "label"@,
            "label_plural"@,
            "queryable"@,
            "custom"@,
            "createable"@,
            "updateable"@,
            "deletable"@,
            "key_prefix"@,
        ].contains(other),
{
    let members = shown->Object_0;
    lemma_shown_names_differ(members@, object);
    law_lookup_gives_the_member(members, "name"@, 0);
    law_lookup_gives_the_member(members, "label"@, 1);
    law_lookup_gives_the_member(members, "label_plural"@, 2);
    law_lookup_gives_the_member(members, "queryable"@, 3);
    law_lookup_gives_the_member(members, "custom"@, 4);
    law_lookup_gives_the_member(members, "createable"@, 5);
    law_lookup_gives_the_member(members, "updateable"@, 6);
    law_lookup_gives_the_member(members, "deletable"@, 7);
    law_lookup_gives_the_member(members, "key_prefix"@, 8);
    let names = seq![
        "name"@,
        "label"@,
        "label_plural"@,
        "queryable"@,
        "custom"@,
        "createable"@,
        "updateable"@,
        "deletable"@,
        "key_prefix"@,
    ];
    if !names.contains(other) {
        assert forall|j: int| 0 <= j < members.len() implies (#[trigger] members@[j]).0@ != other by {
            assert(members@[j].0@ == names[j]);
        }
        law_lookup_without_the_member(shown, other);
    }
}

/// No name stands twice in what is shown of an object.
proof fn lemma_shown_names_differ(members: Seq<(String, Json)>, object: ObjectInfo)
    requires
        shows_object(members, object),
    ensures
        forall|i: int, j: int|
            0 <= i < j < members.len() ==> (#[trigger] members[i]).0@ != (#[trigger] members[j]).0@,
{
    reveal_strlit("name");
    reveal_strlit("label");
    reveal_strlit("label_plural");
    reveal_strlit("queryable");
    reveal_strlit("custom");
    reveal_strlit("createable");
    reveal_strlit("updateable");
    reveal_strlit("deletable");
    reveal_strlit("key_prefix");
    let lengths = seq![4nat, 5, 12, 9, 6, 10, 10, 9, 10];
    let firsts = seq!['n', 'l', 'l', 'q', 'c', 'c', 'u', 'd', 'k'];
    assert forall|i: int| 0 <= i < members.len() implies (#[trigger] members[i]).0@.len()
        == lengths[i] && members[i].0@[0] == firsts[i] by {
        assert(i == 0 || i == 1 || i == 2 || i == 3 || i == 4 || i == 5 || i == 6 || i == 7 || i
            == 8);
    }
    assert forall|i: int, j: int| 0 <= i < j < members.len() implies (#[trigger] members[i]).0@ != (
    #[trigger] members[j]).0@ by {
        assert(i == 0 || i == 1 || i == 2 || i == 3 || i == 4 || i == 5 || i == 6 || i == 7);
        assert(lengths[i] != lengths[j] || firsts[i] != firsts[j]);
    }
}

} // verus!
