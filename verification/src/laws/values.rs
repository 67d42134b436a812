//! Laws of the values that are read and written: JSON and YAML.

use vstd::prelude::*;

use crate::json::{
    array_of, field, items_of, member, str_field, str_field_or_empty, texts_view, Json, JsonView,
};
use crate::yaml::{child, child_of, child_text, entry, list_of, mapping_of, text_of, Yaml, YamlView};

verus! {

/// What stands under a key is the value of the first member with that key, and
/// there is nothing only where no member has it.
pub proof fn law_member_is_the_first(members: Seq<(Seq<char>, JsonView)>, key: Seq<char>)
    ensures
        match field(JsonView::Object(members), key) {
            Some(v) => exists|i: int|
                0 <= i < members.len() && #[trigger] members[i] == (key, v) && forall|j: int|
                    0 <= j < i ==> (#[trigger] members[j]).0 != key,
            None => forall|i: int| 0 <= i < members.len() ==> (#[trigger] members[i]).0 != key,
        },
    decreases members.len(),
{
    if members.len() > 0 {
        if members[0].0 == key {
            assert(members[0] == (key, members[0].1));
        } else {
            let rest = members.skip(1);
            law_member_is_the_first(rest, key);
            match member(rest, key) {
                Some(v) => {
                    let i = choose|i: int|
                        0 <= i < rest.len() && #[trigger] rest[i] == (key, v) && forall|j: int|
                            0 <= j < i ==> (#[trigger] rest[j]).0 != key;
                    assert(members[i + 1] == (key, v));
                    assert forall|j: int| 0 <= j < i + 1 implies (#[trigger] members[j]).0
                        != key by {
                        if j > 0 {
                            assert(rest[j - 1] == members[j]);
                        }
                    }
                },
                None => {
                    assert forall|i: int| 0 <= i < members.len() implies (#[trigger] members[i]).0
                        != key by {
                        if i > 0 {
                            assert(rest[i - 1] == members[i]);
                        }
                    }
                },
            }
        }
    }
}

/// The member at a place is found if no member before it has its key.
pub proof fn lemma_member_at(members: Seq<(Seq<char>, JsonView)>, i: int)
    requires
        0 <= i < members.len(),
        forall|j: int| 0 <= j < i ==> (#[trigger] members[j]).0 != members[i].0,
    ensures
        member(members, members[i].0) == Some(members[i].1),
    decreases i,
{
    if i > 0 {
        let rest = members.skip(1);
        assert(members[0].0 != members[i].0);
        assert forall|j: int| 0 <= j < i - 1 implies (#[trigger] rest[j]).0 != rest[i - 1].0 by {
            assert(rest[j] == members[j + 1]);
        }
        lemma_member_at(rest, i - 1);
    }
}

/// A key that no member has is not found.
pub proof fn lemma_no_member(members: Seq<(Seq<char>, JsonView)>, key: Seq<char>)
    requires
        forall|j: int| 0 <= j < members.len() ==> (#[trigger] members[j]).0 != key,
    ensures
        member(members, key) is None,
    decreases members.len(),
{
    if members.len() > 0 {
        let rest = members.skip(1);
        assert(members[0].0 != key);
        assert forall|j: int| 0 <= j < rest.len() implies (#[trigger] rest[j]).0 != key by {
            assert(rest[j] == members[j + 1]);
        }
        lemma_no_member(rest, key);
    }
}

/// Only an object has members, only a string is a text, and only an array has
/// items: they are its own, in its order.
pub proof fn law_kinds_of_values(v: JsonView, key: Seq<char>)
    ensures
        !(v is Object) ==> field(v, key) is None,
        forall|s: Seq<char>|
            str_field(v, key) == Some(s) <==> field(v, key) == Some(JsonView::Str(s)),
        str_field_or_empty(v, key) == match field(v, key) {
            Some(JsonView::Str(s)) => s,
            _ => Seq::empty(),
        },
        items_of(field(v, key)) == match field(v, key) {
            Some(JsonView::Array(items)) => items,
            _ => Seq::empty(),
        },
        array_of(Some(v)) is Some <==> v is Array,
{
}

/// A list of texts is written as an array of strings, one for one.
pub proof fn law_texts_are_written_one_for_one(items: Seq<Seq<char>>)
    ensures
        texts_view(items) is Array,
        texts_view(items)->Array_0.len() == items.len(),
        forall|i: int|
            0 <= i < items.len() ==> #[trigger] texts_view(items)->Array_0[i] == JsonView::Str(
                items[i],
            ),
{
}

/// What stands under a key of a mapping is the value of the first entry whose
/// key is that text, and there is nothing only where no entry's is.
pub proof fn law_entry_is_the_first(entries: Seq<(YamlView, YamlView)>, key: Seq<char>)
    ensures
        match child(YamlView::Mapping(entries), key) {
            Some(v) => exists|i: int|
                0 <= i < entries.len() && #[trigger] entries[i] == (YamlView::Text(key), v)
                    && forall|j: int|
                    0 <= j < i ==> (#[trigger] entries[j]).0 != YamlView::Text(key),
            None => forall|i: int|
                0 <= i < entries.len() ==> (#[trigger] entries[i]).0 != YamlView::Text(key),
        },
    decreases entries.len(),
{
    if entries.len() > 0 {
        if entries[0].0 == YamlView::Text(key) {
            assert(entries[0] == (YamlView::Text(key), entries[0].1));
        } else {
            let rest = entries.skip(1);
            law_entry_is_the_first(rest, key);
            match entry(rest, key) {
                Some(v) => {
                    let i = choose|i: int|
                        0 <= i < rest.len() && #[trigger] rest[i] == (YamlView::Text(key), v)
                            && forall|j: int|
                            0 <= j < i ==> (#[trigger] rest[j]).0 != YamlView::Text(key);
                    assert(entries[i + 1] == (YamlView::Text(key), v));
                    assert forall|j: int| 0 <= j < i + 1 implies (#[trigger] entries[j]).0
                        != YamlView::Text(key) by {
                        if j > 0 {
                            assert(rest[j - 1] == entries[j]);
                        }
                    }
                },
                None => {
                    assert forall|i: int| 0 <= i < entries.len() implies (#[trigger] entries[i]).0
                        != YamlView::Text(key) by {
                        if i > 0 {
                            assert(rest[i - 1] == entries[i]);
                        }
                    }
                },
            }
        }
    }
}

/// A node is read as what it is, and a tag around it changes nothing.
pub proof fn law_kinds_of_nodes(s: Seq<char>, items: Seq<YamlView>, entries: Seq<(YamlView, YamlView)>, v: YamlView, key: Seq<char>)
    ensures
        text_of(YamlView::Text(s)) == Some(s),
        list_of(YamlView::List(items)) == Some(items),
        mapping_of(YamlView::Mapping(entries)) == Some(entries),
        text_of(YamlView::List(items)) is None && text_of(YamlView::Mapping(entries)) is None,
        list_of(YamlView::Text(s)) is None && mapping_of(YamlView::Text(s)) is None,
        text_of(YamlView::Tagged(Box::new(v))) == text_of(v),
        list_of(YamlView::Tagged(Box::new(v))) == list_of(v),
        mapping_of(YamlView::Tagged(Box::new(v))) == mapping_of(v),
        forall|t: Seq<char>|
            child_text(v, key) == Some(t) <==> (child(v, key) is Some && text_of(child(v, key)->0)
                == Some(t)),
{
}

/// A value of the program is what it says it is.
pub proof fn law_values_are_what_they_hold(j: Json, i: int)
    ensures
        match j {
            Json::Null => j@ is Null,
            Json::Bool(b) => j@ == JsonView::Bool(b),
            Json::Uint(n) => j@ == JsonView::Number(n as int),
            Json::Int(n) => j@ == JsonView::Number(n as int),
            Json::Float(n) => j@ == JsonView::Float(n),
            Json::Str(s) => j@ == JsonView::Str(s@),
            Json::Array(v) => j@ is Array && j@->Array_0.len() == v@.len() && (0 <= i < v@.len()
                ==> j@->Array_0[i] == v@[i]@),
            Json::Object(v) => j@ is Object && j@->Object_0.len() == v@.len() && (0 <= i < v@.len()
                ==> j@->Object_0[i] == (v@[i].0@, v@[i].1@)),
        },
{
}

/// A node of the program is what it says it is.
pub proof fn law_nodes_are_what_they_hold(y: Yaml, i: int)
    ensures
        match y {
            Yaml::Text(s) => y@ == YamlView::Text(s@),
            Yaml::List(v) => y@ is List && y@->List_0.len() == v@.len() && (0 <= i < v@.len()
                ==> y@->List_0[i] == v@[i]@),
            Yaml::Mapping(v) => y@ is Mapping && y@->Mapping_0.len() == v@.len() && (0 <= i
                < v@.len() ==> y@->Mapping_0[i] == (v@[i].0@, v@[i].1@)),
            Yaml::Tagged(b) => y@ == YamlView::Tagged(Box::new((*b)@)),
            Yaml::Other => y@ is Other,
        },
{
}

/// What is looked for in a node that may be missing is missing with it.
pub proof fn law_nested_nodes(v: YamlView, key: Seq<char>)
    ensures
        child_of(Some(v), key) == child(v, key),
        child_of(None, key) is None,
        mapping_of(v) is None ==> child(v, key) is None,
{
}

} // verus!
