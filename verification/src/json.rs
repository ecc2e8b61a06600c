//! JSON values as the journal carries them, and the few ways in which the service reads them.

use vstd::prelude::*;

use crate::model::Duplicate;
use crate::text;

verus! {

/// A JSON value. A number that is not an integer is kept as the text that denotes it.
#[derive(Debug, PartialEq, Eq)]
pub enum Json {
    Null,
    Bool(bool),
    Unsigned(u64),
    Signed(i64),
    Float(String),
    Text(String),
    List(Vec<Json>),
    Object(Vec<(String, Json)>),
}

/// The deep view of a [`Json`].
#[verifier::ext_equal]
pub enum JsonView {
    Null,
    Bool(bool),
    Unsigned(u64),
    Signed(i64),
    Float(Seq<char>),
    Text(Seq<char>),
    List(Seq<JsonView>),
    Object(Seq<(Seq<char>, JsonView)>),
}

/// What a JSON value stands for.
pub open spec fn json_view(value: Json) -> JsonView
    decreases value,
{
    match value {
        Json::Null => JsonView::Null,
        Json::Bool(flag) => JsonView::Bool(flag),
        Json::Unsigned(number) => JsonView::Unsigned(number),
        Json::Signed(number) => JsonView::Signed(number),
        Json::Float(text) => JsonView::Float(text@),
        Json::Text(text) => JsonView::Text(text@),
        Json::List(items) => JsonView::List(
            Seq::new(
                items@.len(),
                |i: int|
                    if 0 <= i < items@.len() {
                        json_view(items@[i])
                    } else {
                        JsonView::Null
                    },
            ),
        ),
        Json::Object(fields) => JsonView::Object(
            Seq::new(
                fields@.len(),
                |i: int|
                    if 0 <= i < fields@.len() {
                        (fields@[i].0@, json_view(fields@[i].1))
                    } else {
                        (Seq::empty(), JsonView::Null)
                    },
            ),
        ),
    }
}

impl DeepView for Json {
    type V = JsonView;

    open spec fn deep_view(&self) -> JsonView {
        json_view(*self)
    }
}

fn duplicate_json(value: &Json) -> (copy: Json)
    ensures
        json_view(copy) == json_view(*value),
    decreases value,
{
    match value {
        Json::Null => Json::Null,
        Json::Bool(flag) => Json::Bool(*flag),
        Json::Unsigned(number) => Json::Unsigned(*number),
        Json::Signed(number) => Json::Signed(*number),
        Json::Float(text) => Json::Float(text.clone()),
        Json::Text(text) => Json::Text(text.clone()),
        Json::List(items) => {
            let mut copies: Vec<Json> = Vec::new();
            let mut index: usize = 0;
            while index < items.len()
                invariant
                    index <= items@.len(),
                    copies@.len() == index,
                    value == (Json::List(*items)),
                    forall|i: int|
                        0 <= i < index ==> json_view(#[trigger] copies@[i]) == json_view(items@[i]),
                decreases items.len() - index,
            {
                proof {
                    assert(decreases_to!(value => value->List_0));
                    assert(decreases_to!(*items => items@));
                    assert(decreases_to!(items@ => items@[index as int]));
                }
                copies.push(duplicate_json(&items[index]));
                index += 1;
            }
            let copy = Json::List(copies);
            proof {
                assert(json_view(copy)->List_0 == json_view(*value)->List_0);
            }
            copy
        },
        Json::Object(fields) => {
            let mut copies: Vec<(String, Json)> = Vec::new();
            let mut index: usize = 0;
            while index < fields.len()
                invariant
                    index <= fields@.len(),
                    copies@.len() == index,
                    value == (Json::Object(*fields)),
                    forall|i: int|
                        0 <= i < index ==> (#[trigger] copies@[i]).0@ == fields@[i].0@ && json_view(
                            copies@[i].1,
                        ) == json_view(fields@[i].1),
                decreases fields.len() - index,
            {
                proof {
                    assert(decreases_to!(value => value->Object_0));
                    assert(decreases_to!(*fields => fields@));
                    assert(decreases_to!(fields@ => fields@[index as int]));
                }
                copies.push((fields[index].0.clone(), duplicate_json(&fields[index].1)));
                index += 1;
            }
            let copy = Json::Object(copies);
            proof {
                assert(json_view(copy)->Object_0 == json_view(*value)->Object_0);
            }
            copy
        },
    }
}

impl Clone for Json {
    fn clone(&self) -> (copy: Self)
        ensures
            json_view(copy) == json_view(*self),
    {
        duplicate_json(self)
    }
}

impl Duplicate for Json {
    fn duplicate(&self) -> (copy: Self) {
        duplicate_json(self)
    }
}

/// The position of the first field called `name` at or after `from`, or the number of fields.
pub open spec fn field_from(fields: Seq<(Seq<char>, JsonView)>, name: Seq<char>, from: int) -> int
    decreases fields.len() - from,
{
    if from >= fields.len() {
        fields.len() as int
    } else if fields[from].0 == name {
        from
    } else {
        field_from(fields, name, from + 1)
    }
}

/// What [`field_from`] returns: the first field of that name, if there is one.
pub proof fn lemma_field_from(fields: Seq<(Seq<char>, JsonView)>, name: Seq<char>, from: int)
    requires
        0 <= from <= fields.len(),
    ensures
        from <= field_from(fields, name, from) <= fields.len(),
        field_from(fields, name, from) < fields.len() ==> fields[field_from(fields, name, from)].0
            == name,
        forall|i: int|
            from <= i < field_from(fields, name, from) ==> (#[trigger] fields[i]).0 != name,
    decreases fields.len() - from,
{
    if from < fields.len() && fields[from].0 != name {
        lemma_field_from(fields, name, from + 1);
    }
}

/// The value of the field `name` of an object; nothing else has fields.
pub open spec fn field(value: JsonView, name: Seq<char>) -> Option<JsonView> {
    match value {
        JsonView::Object(fields) => {
            let position = field_from(fields, name, 0);
            if position < fields.len() {
                Some(fields[position].1)
            } else {
                None
            }
        },
        _ => None,
    }
}

/// The unsigned integer that a field holds.
pub open spec fn number_field(value: JsonView, name: Seq<char>) -> Option<u64> {
    match field(value, name) {
        Some(JsonView::Unsigned(number)) => Some(number),
        _ => None,
    }
}

/// The text that a field holds.
pub open spec fn text_field(value: JsonView, name: Seq<char>) -> Option<Seq<char>> {
    match field(value, name) {
        Some(JsonView::Text(text)) => Some(text),
        _ => None,
    }
}

/// The fields of an object with `name` set to `value`: in place if it is there, else at the end.
pub open spec fn fields_with(
    fields: Seq<(Seq<char>, JsonView)>,
    name: Seq<char>,
    value: JsonView,
) -> Seq<(Seq<char>, JsonView)> {
    let position = field_from(fields, name, 0);
    if position < fields.len() {
        fields.update(position, (name, value))
    } else {
        fields.push((name, value))
    }
}

/// A value in which the object's field `name` is `value`; anything but an object stays as it is.
pub open spec fn with_field(target: JsonView, name: Seq<char>, value: JsonView) -> JsonView {
    match target {
        JsonView::Object(fields) => JsonView::Object(fields_with(fields, name, value)),
        other => other,
    }
}

fn find_field(fields: &Vec<(String, Json)>, name: &str) -> (position: usize)
    ensures
        position <= fields@.len(),
        position == field_from(json_view(Json::Object(*fields))->Object_0, name@, 0),
{
    let ghost view = json_view(Json::Object(*fields))->Object_0;
    let mut index: usize = 0;
    while index < fields.len()
        invariant
            index <= fields@.len(),
            view == json_view(Json::Object(*fields))->Object_0,
            field_from(view, name@, 0) == field_from(view, name@, index as int),
        decreases fields.len() - index,
    {
        if text::same_text(fields[index].0.as_str(), name) {
            return index;
        }
        index += 1;
    }
    index
}

/// Reads a field of an object.
pub fn get<'a>(value: &'a Json, name: &str) -> (found: Option<&'a Json>)
    ensures
        match found {
            Some(inner) => field(json_view(*value), name@) == Some(json_view(*inner)),
            None => field(json_view(*value), name@) is None,
        },
{
    match value {
        Json::Object(fields) => {
            let position = find_field(fields, name);
            if position < fields.len() {
                Some(&fields[position].1)
            } else {
                None
            }
        },
        _ => None,
    }
}

/// Reads a field that holds an unsigned integer.
pub fn get_u64(value: &Json, name: &str) -> (number: Option<u64>)
    ensures
        number == number_field(json_view(*value), name@),
{
    match get(value, name) {
        Some(Json::Unsigned(number)) => Some(*number),
        _ => None,
    }
}

/// Reads a field that holds text.
pub fn get_text(value: &Json, name: &str) -> (text: Option<String>)
    ensures
        text.deep_view() == text_field(json_view(*value), name@),
{
    match get(value, name) {
        Some(Json::Text(text)) => Some(text.clone()),
        _ => None,
    }
}

/// Sets a field of an object.
pub fn set_field(target: Json, name: &str, value: Json) -> (result: Json)
    ensures
        json_view(result) == with_field(json_view(target), name@, json_view(value)),
{
    match target {
        Json::Object(fields) => {
            let mut fields = fields;
            let ghost before = json_view(Json::Object(fields))->Object_0;
            let position = find_field(&fields, name);
            let ghost expected = fields_with(before, name@, json_view(value));
            if position < fields.len() {
                fields.set(position, (name.to_owned(), value));
            } else {
                fields.push((name.to_owned(), value));
            }
            let result = Json::Object(fields);
            proof {
                assert(json_view(result)->Object_0 == expected);
            }
            result
        },
        other => other,
    }
}

/// A field that was set is read back, and every other field of the object keeps its value.
pub proof fn set_field_is_read_back(target: JsonView, name: Seq<char>, value: JsonView, other: Seq<char>)
    requires
        target is Object,
    ensures
        field(with_field(target, name, value), name) == Some(value),
        other != name ==> field(with_field(target, name, value), other) == field(target, other),
{
    let fields = target->Object_0;
    let result = fields_with(fields, name, value);
    lemma_field_from(fields, name, 0);
    lemma_field_from(fields, other, 0);
    lemma_field_from(result, name, 0);
    lemma_field_from(result, other, 0);
    let before = field_from(fields, name, 0);
    let after = field_from(result, name, 0);
    assert(result[before].0 == name);
    assert(after <= before);
    if after < before {
        assert(result[after].0 == fields[after].0);
    }
    if other != name {
        let old_position = field_from(fields, other, 0);
        let new_position = field_from(result, other, 0);
        if old_position < fields.len() {
            assert(result[old_position].0 == other);
            assert(new_position <= old_position);
        }
        if new_position < result.len() {
            assert(result[new_position].0 == other);
            assert(new_position != before);
            assert(fields[new_position].0 == other);
            assert(old_position <= new_position);
        }
    }
}

/// What the fields of an object stand for.
pub open spec fn fields_view(fields: Seq<(String, Json)>) -> Seq<(Seq<char>, JsonView)> {
    Seq::new(fields.len(), |i: int| (fields[i].0@, json_view(fields[i].1)))
}

/// What the items of a list stand for.
pub open spec fn items_view(items: Seq<Json>) -> Seq<JsonView> {
    Seq::new(items.len(), |i: int| json_view(items[i]))
}

/// Adds a field at the end of an object that is being built.
pub fn push_field(fields: &mut Vec<(String, Json)>, name: &str, value: Json)
    ensures
        fields_view(final(fields)@) == fields_view(old(fields)@).push((name@, json_view(value))),
{
    let ghost before = fields_view(fields@);
    let ghost view = json_view(value);
    fields.push((name.to_owned(), value));
    proof {
        assert(fields_view(fields@) == before.push((name@, view)));
    }
}

/// Closes an object.
pub fn object(fields: Vec<(String, Json)>) -> (value: Json)
    ensures
        json_view(value) == JsonView::Object(fields_view(fields@)),
{
    let value = Json::Object(fields);
    proof {
        assert(json_view(value)->Object_0 == fields_view(fields@));
    }
    value
}

/// Closes a list.
pub fn list(items: Vec<Json>) -> (value: Json)
    ensures
        json_view(value) == JsonView::List(items_view(items@)),
{
    let value = Json::List(items);
    proof {
        assert(json_view(value)->List_0 == items_view(items@));
    }
    value
}

/// A field whose name occurs at `position` and nowhere before is found there.
pub proof fn lemma_field_at(fields: Seq<(Seq<char>, JsonView)>, position: int)
    requires
        0 <= position < fields.len(),
        forall|i: int| 0 <= i < position ==> (#[trigger] fields[i]).0 != fields[position].0,
    ensures
        field(JsonView::Object(fields), fields[position].0) == Some(fields[position].1),
{
    lemma_field_from(fields, fields[position].0, 0);
    let found = field_from(fields, fields[position].0, 0);
    assert(found <= position) by {
        if found > position {
            assert(fields[position].0 != fields[position].0);
        }
    }
}

} // verus!
