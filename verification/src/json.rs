//! JSON texts: reading the members of an object, and writing objects.
use vstd::prelude::*;
use crate::text;

verus! {

/// What a member of a received JSON object is, as far as it is looked at.
pub enum JsonField {
    Text(String),
    Flag(bool),
    Other,
}

/// What a [`JsonField`] stands for.
pub enum FieldView {
    Text(Seq<char>),
    Flag(bool),
    Other,
}

impl View for JsonField {
    type V = FieldView;

    open spec fn view(&self) -> FieldView {
        match self {
            JsonField::Text(s) => FieldView::Text(s@),
            JsonField::Flag(b) => FieldView::Flag(*b),
            JsonField::Other => FieldView::Other,
        }
    }
}

/// The members of a received object: names and values.
pub open spec fn field_list(list: Seq<(String, JsonField)>) -> Seq<(Seq<char>, FieldView)> {
    list.map_values(|m: (String, JsonField)| (m.0@, m.1@))
}

/// The members of an object, if there is one.
pub open spec fn fields_of(fields: Option<Vec<(String, JsonField)>>) -> Option<
    Seq<(Seq<char>, FieldView)>,
> {
    match fields {
        Some(list) => Some(field_list(list@)),
        None => None,
    }
}

/// The members of the JSON object that a text holds, as `serde_json::from_str` reads it; `None`
/// where the text is not JSON or not an object.
pub uninterp spec fn json_members(text: Seq<char>) -> Option<Seq<(Seq<char>, FieldView)>>;

/// `serde_json::from_str` into a `serde_json::Value`: the members of the object that the text
/// holds, as [`json_members`] names them.
#[verifier::external_body]
pub(crate) fn read_members(text: &str) -> (r: Option<Vec<(String, JsonField)>>)
    ensures
        fields_of(r) == json_members(text@),
{
    match serde_json::from_str::<serde_json::Value>(text) {
        Ok(serde_json::Value::Object(members)) => Some(members.into_iter().map(|m| match m.1 {
            serde_json::Value::String(s) => (m.0, JsonField::Text(s)),
            serde_json::Value::Bool(b) => (m.0, JsonField::Flag(b)),
            _ => (m.0, JsonField::Other),
        }).collect()),
        _ => None,
    }
}

/// The first member of that name in a list.
pub open spec fn member_in(list: Seq<(Seq<char>, FieldView)>, name: Seq<char>) -> Option<FieldView>
    decreases list.len(),
{
    if list.len() == 0 {
        None
    } else if list.first().0 == name {
        Some(list.first().1)
    } else {
        member_in(list.drop_first(), name)
    }
}

/// The member of that name, if there is an object and it has one.
pub open spec fn member(fields: Option<Seq<(Seq<char>, FieldView)>>, name: Seq<char>) -> Option<
    FieldView,
> {
    match fields {
        Some(list) => member_in(list, name),
        None => None,
    }
}

/// The place of the first member of that name.
fn find_member(list: &Vec<(String, JsonField)>, name: &String) -> (r: Option<usize>)
    ensures
        match r {
            Some(i) => i < list.len() && member_in(field_list(list@), name@) == Some(
                list@[i as int].1@,
            ),
            None => member_in(field_list(list@), name@) is None,
        },
{
    let mut i: usize = 0;
    let ghost all = field_list(list@);
    assert(all.skip(0) =~= all);
    while i < list.len()
        invariant
            i <= list.len(),
            all == field_list(list@),
            member_in(all, name@) == member_in(all.skip(i as int), name@),
        decreases list.len() - i,
    {
        assert(all.skip(i as int).first() == all[i as int]);
        assert(all.skip(i as int).drop_first() =~= all.skip(i + 1));
        if list[i].0 == *name {
            return Some(i);
        }
        i = i + 1;
    }
    None
}

/// The text of the member of that name, if it is a string.
pub fn text_member(fields: &Option<Vec<(String, JsonField)>>, name: &String) -> (r: Option<String>)
    ensures
        match r {
            Some(s) => member(fields_of(*fields), name@) == Some(FieldView::Text(s@)),
            None => !(member(fields_of(*fields), name@) matches Some(FieldView::Text(_))),
        },
{
    match fields {
        Some(list) => match find_member(list, name) {
            Some(i) => match &list[i].1 {
                JsonField::Text(s) => Some(s.clone()),
                _ => None,
            },
            None => None,
        },
        None => None,
    }
}

/// The value of the member of that name, if it is `true` or `false`.
pub fn flag_member(fields: &Option<Vec<(String, JsonField)>>, name: &String) -> (r: Option<bool>)
    ensures
        match r {
            Some(b) => member(fields_of(*fields), name@) == Some(FieldView::Flag(b)),
            None => !(member(fields_of(*fields), name@) matches Some(FieldView::Flag(_))),
        },
{
    match fields {
        Some(list) => match find_member(list, name) {
            Some(i) => match &list[i].1 {
                JsonField::Flag(b) => Some(*b),
                _ => None,
            },
            None => None,
        },
        None => None,
    }
}

/// A value in a JSON object that is to be written.
pub enum JsonValue {
    Text(String),
    Flag(bool),
    Integer(i64),
    Texts(Vec<String>),
}

/// What a [`JsonValue`] stands for.
pub enum ValueView {
    Text(Seq<char>),
    Flag(bool),
    Integer(int),
    Texts(Seq<Seq<char>>),
}

impl View for JsonValue {
    type V = ValueView;

    open spec fn view(&self) -> ValueView {
        match self {
            JsonValue::Text(s) => ValueView::Text(s@),
            JsonValue::Flag(b) => ValueView::Flag(*b),
            JsonValue::Integer(n) => ValueView::Integer(*n as int),
            JsonValue::Texts(list) => ValueView::Texts(text::texts(list@)),
        }
    }
}

/// The members of an object that is to be written: names and values.
pub open spec fn value_list(list: Seq<(String, JsonValue)>) -> Seq<(Seq<char>, ValueView)> {
    list.map_values(|m: (String, JsonValue)| (m.0@, m.1@))
}

/// The members of an object whose values are all strings.
pub open spec fn string_list(list: Seq<(String, String)>) -> Seq<(Seq<char>, Seq<char>)> {
    list.map_values(|m: (String, String)| (m.0@, m.1@))
}

/// The text of the JSON object with these members, as a `serde_json::Value` writes itself.
pub uninterp spec fn json_value_text(members: Seq<(Seq<char>, ValueView)>) -> Seq<char>;

/// The text of the JSON object with these members in this order, as a `serde_json::Serializer`
/// writes it.
pub uninterp spec fn json_object_text(members: Seq<(Seq<char>, Seq<char>)>) -> Seq<char>;

/// `serde_json::Value::to_string` of the object with these members: the text that
/// [`json_value_text`] names.
#[verifier::external_body]
pub(crate) fn value_text(members: Vec<(String, JsonValue)>) -> (r: String)
    ensures
        r@ == json_value_text(value_list(members@)),
{
    serde_json::Value::Object(members.into_iter().map(|m| (m.0, match m.1 {
        JsonValue::Text(s) => serde_json::Value::String(s),
        JsonValue::Flag(b) => serde_json::Value::Bool(b),
        JsonValue::Integer(n) => serde_json::Value::from(n),
        JsonValue::Texts(list) => serde_json::Value::from(list),
    })).collect()).to_string()
}

#[verifier::external_type_specification]
#[verifier::external_body]
pub struct ExJsonError(serde_json::Error);

/// `serde::Serializer::collect_map` of a `serde_json::Serializer` that writes into memory: the
/// text of the object with these members in this order, as [`json_object_text`] names it. Such
/// a serializer has no error for an object whose names and values are strings.
#[verifier::external_body]
fn object_text(members: &Vec<(String, String)>) -> (r: Result<String, serde_json::Error>)
    ensures
        r is Ok,
        r->Ok_0@ == json_object_text(string_list(members@)),
{
    let mut bytes: Vec<u8> = Vec::new();
    let mut writer = serde_json::Serializer::new(&mut bytes);
    serde::Serializer::collect_map(&mut writer, members.iter().map(|m| (&m.0, &m.1)))?;
    Ok(String::from_utf8(bytes).unwrap())
}

/// The text of the object with these members in this order. The fallback would stand in for it
/// if the serializer had an error.
pub fn write_object(members: &Vec<(String, String)>, fallback: String) -> (r: String)
    ensures
        r@ == json_object_text(string_list(members@)),
{
    match object_text(members) {
        Ok(text) => text,
        Err(_) => fallback,
    }
}

} // verus!
