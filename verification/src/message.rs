//! Lines that the bulb sends: answers to commands, and notifications.
use crate::entries::lemma_mapped_entries;
use crate::json::{as_object, display, from_str, json_view, member, members_view, parsed_json};
use crate::json::{displayed_json, Json};
use crate::state::{props_entries, props_view, Props};
use crate::text::strings_view;
use serde_json::Value;
use vstd::prelude::*;

verus! {

/// What the client reads of a line.
#[derive(Debug)]
pub struct Message {
    /// The text under `method`, if it is one.
    pub method: Option<String>,
    /// The members of the object under `params`, if it is one; `None` for a member that is no
    /// text.
    pub params: Option<Vec<(String, Option<String>)>>,
    /// The items of the array under `result`, if it is one: a text as it is, anything else as
    /// it is displayed.
    pub result: Option<Vec<String>>,
}

/// A message, as contracts speak of it.
pub struct MessageView {
    pub method: Option<Seq<char>>,
    pub params: Option<Props>,
    pub result: Option<Seq<Seq<char>>>,
}

impl View for Message {
    type V = MessageView;

    open spec fn view(&self) -> MessageView {
        MessageView {
            method: match self.method {
                Some(method) => Some(method@),
                None => None,
            },
            params: match self.params {
                Some(params) => Some(props_view(params@)),
                None => None,
            },
            result: match self.result {
                Some(result) => Some(strings_view(result@)),
                None => None,
            },
        }
    }
}

impl Json {
    /// The text of an item of a `get_prop` answer.
    pub open spec fn as_prop(self) -> Seq<char> {
        match self {
            Json::Text(text) => text,
            _ => self.displayed(),
        }
    }

    /// What the client reads of a document.
    pub open spec fn message(self) -> MessageView {
        MessageView {
            method: self.member("method"@).text(),
            params: match self.member("params"@).members() {
                Some(members) => Some(members.map_values(|json: Json| json.text())),
                None => None,
            },
            result: match self.member("result"@).items() {
                Some(items) => Some(items.map_values(|json: Json| json.as_prop())),
                None => None,
            },
        }
    }
}

/// The text of an item of a `get_prop` answer.
fn prop_item(value: &Value) -> (r: String)
    ensures
        r@ == json_view(*value).as_prop(),
{
    match value.as_str() {
        Some(text) => text.to_owned(),
        None => display(value),
    }
}

/// The texts of the items of a `get_prop` answer.
fn prop_items(values: &Vec<Value>) -> (r: Vec<String>)
    ensures
        strings_view(r@) == values@.map_values(|value: Value| json_view(value)).map_values(
            |json: Json| json.as_prop(),
        ),
{
    let mut out: Vec<String> = Vec::new();
    for i in 0..values.len()
        invariant
            out@.len() == i,
            forall|j: int| 0 <= j < i ==> (#[trigger] out@[j])@ == json_view(values@[j]).as_prop(),
    {
        out.push(prop_item(&values[i]));
    }
    assert(strings_view(out@) =~= values@.map_values(|value: Value| json_view(value)).map_values(
        |json: Json| json.as_prop(),
    ));
    out
}

/// The properties that an object reports.
fn prop_members(members: &Vec<(String, Value)>) -> (r: Vec<(String, Option<String>)>)
    ensures
        props_view(r@) == members_view(members@).map_values(|json: Json| json.text()),
{
    let mut out: Vec<(String, Option<String>)> = Vec::new();
    for i in 0..members.len()
        invariant
            out@.len() == i,
            forall|j: int|
                0 <= j < i ==> #[trigger] props_entries(out@)[j] == (
                    members@[j].0@,
                    json_view(members@[j].1).text(),
                ),
    {
        let ghost before = out@;
        let text = match members[i].1.as_str() {
            Some(text) => Some(text.to_owned()),
            None => None,
        };
        out.push((members[i].0.clone(), text));
        assert(forall|j: int|
            0 <= j < i ==> #[trigger] props_entries(out@)[j] == props_entries(before)[j]);
    }
    proof {
        lemma_mapped_entries(
            members@.map_values(|member: (String, Value)| (member.0@, json_view(member.1))),
            props_entries(out@),
            |json: Json| json.text(),
        );
    }
    out
}

impl Message {
    /// Reads what the client needs from a JSON document.
    pub fn from_value(value: &Value) -> (r: Message)
        ensures
            r@ == json_view(*value).message(),
    {
        Message {
            method: match member(value, "method").as_str() {
                Some(method) => Some(method.to_owned()),
                None => None,
            },
            params: match as_object(member(value, "params")) {
                Some(members) => Some(prop_members(&members)),
                None => None,
            },
            result: match member(value, "result").as_array() {
                Some(items) => Some(prop_items(items)),
                None => None,
            },
        }
    }

    /// Reads a line, which is an error unless it is one JSON document.
    pub fn parse(line: &str) -> (r: Result<Message, serde_json::Error>)
        ensures
            match r {
                Ok(message) => parsed_json(line@) matches Some(json) && message@ == json.message(),
                Err(_) => parsed_json(line@) is None,
            },
    {
        match from_str(line) {
            Ok(value) => Ok(Message::from_value(&value)),
            Err(e) => Err(e),
        }
    }
}

/// What is read of an object: the text under `method`, the members of the object under `params`
/// as far as they are texts, and the items of the array under `result`, each as its text.
pub proof fn lemma_object_message(members: Map<Seq<char>, Json>)
    ensures
        ({
            let message = Json::Object(members).message();
            let has = |key: Seq<char>| members.contains_key(key);
            &&& if has("method"@) && members["method"@] is Text {
                message.method == Some(members["method"@]->Text_0)
            } else {
                message.method is None
            }
            &&& if has("params"@) && members["params"@] is Object {
                &&& message.params is Some
                &&& message.params->0.dom() == members["params"@]->Object_0.dom()
                &&& forall|key: Seq<char>| #[trigger]
                    members["params"@]->Object_0.contains_key(key) ==> message.params->0[key]
                        == match members["params"@]->Object_0[key] {
                        Json::Text(text) => Some(text),
                        _ => None,
                    }
            } else {
                message.params is None
            }
            &&& if has("result"@) && members["result"@] is Array {
                &&& message.result is Some
                &&& message.result->0.len() == members["result"@]->Array_0.len()
                &&& forall|i: int|
                    0 <= i < message.result->0.len() ==> is_prop_text(
                        members["result"@]->Array_0[i],
                        #[trigger] message.result->0[i],
                    )
            } else {
                message.result is None
            }
        }),
{
}

/// `text` is what an item of an answer says: a text says itself, and anything else what it is
/// displayed as.
pub open spec fn is_prop_text(item: Json, text: Seq<char>) -> bool {
    match item {
        Json::Text(own) => text == own,
        Json::Null => text == "null"@,
        Json::Bool(b) => text == if b {
            "true"@
        } else {
            "false"@
        },
        Json::Number(digits) => text == digits,
        _ => text == displayed_json(item),
    }
}

/// Nothing is read of a document that is no object.
pub proof fn lemma_other_message(json: Json)
    requires
        !(json is Object),
    ensures
        json.message().method is None,
        json.message().params is None,
        json.message().result is None,
{
}

/// What contracts speak of is what a message holds.
pub proof fn lemma_message_fields(message: Message)
    ensures
        match message.method {
            Some(method) => message@.method == Some(method@),
            None => message@.method is None,
        },
        match message.params {
            Some(params) => message@.params == Some(props_view(params@)),
            None => message@.params is None,
        },
        match message.result {
            Some(result) => message@.result matches Some(texts) && texts.len() == result@.len()
                && forall|i: int| 0 <= i < texts.len() ==> #[trigger] texts[i] == result@[i]@,
            None => message@.result is None,
        },
{
}

} // verus!
