//! JSON documents: what `serde_json` reads from a line and what it writes on one.
use crate::entries::{entry_map, keys_differ, lookup};
use crate::text::{decimal, lemma_decimal_reads_back, lemma_digits_only};
use serde_json::Value;
use vstd::prelude::*;

verus! {

/// `serde_json::Value`, which Verus knows by what [`json_view`] says of it.
#[verifier::external_type_specification]
#[verifier::external_body]
pub struct ExValue(Value);

/// `serde_json::Error`, of which nothing is known but that it is carried along.
#[verifier::external_type_specification]
#[verifier::external_body]
pub struct ExJsonError(serde_json::Error);

/// A JSON document.
pub enum Json {
    Null,
    Bool(bool),
    /// A number, as the text that it is displayed as.
    Number(Seq<char>),
    Text(Seq<char>),
    Array(Seq<Json>),
    Object(Map<Seq<char>, Json>),
}

impl Json {
    /// What stands under `key`; `Null` where nothing does, or where this is no object.
    pub open spec fn member(self, key: Seq<char>) -> Json {
        match self {
            Json::Object(members) => match lookup(members, key) {
                Some(json) => json,
                None => Json::Null,
            },
            _ => Json::Null,
        }
    }

    /// The characters of a text.
    pub open spec fn text(self) -> Option<Seq<char>> {
        match self {
            Json::Text(text) => Some(text),
            _ => None,
        }
    }

    /// The items of an array.
    pub open spec fn items(self) -> Option<Seq<Json>> {
        match self {
            Json::Array(items) => Some(items),
            _ => None,
        }
    }

    /// The members of an object.
    pub open spec fn members(self) -> Option<Map<Seq<char>, Json>> {
        match self {
            Json::Object(members) => Some(members),
            _ => None,
        }
    }

    /// The document as it is displayed.
    pub open spec fn displayed(self) -> Seq<char> {
        match self {
            Json::Null => "null"@,
            Json::Bool(true) => "true"@,
            Json::Bool(false) => "false"@,
            Json::Number(digits) => digits,
            _ => displayed_json(self),
        }
    }
}

/// The document that a `serde_json::Value` holds. A number counts by the text that it is
/// displayed as.
pub uninterp spec fn json_view(value: Value) -> Json;

/// What `serde_json::from_str` reads from a text, if the text is one JSON document.
pub uninterp spec fn parsed_json(text: Seq<char>) -> Option<Json>;

/// What the `Display` of a `serde_json::Value` writes for a document.
pub uninterp spec fn displayed_json(json: Json) -> Seq<char>;

/// What `serde_json::to_string` writes for a document.
pub uninterp spec fn encoded_json(json: Json) -> Seq<char>;

/// Calls `serde_json::from_str`. Whether it succeeds, and the document that it returns, depend
/// on the text alone.
#[verifier::external_body]
pub(crate) fn from_str(text: &str) -> (r: Result<Value, serde_json::Error>)
    ensures
        match r {
            Ok(value) => parsed_json(text@) == Some(json_view(value)),
            Err(_) => parsed_json(text@) is None,
        },
{
    serde_json::from_str(text)
}

/// Indexes a `serde_json::Value` with a key: the member of that name, or `Null` where there is
/// none. It never panics.
#[verifier::external_body]
pub(crate) fn member<'a>(value: &'a Value, key: &str) -> (r: &'a Value)
    ensures
        json_view(*r) == json_view(*value).member(key@),
{
    &value[key]
}

/// `Value::as_str`: the characters of a text, and `None` of anything else.
pub assume_specification<'a>[ Value::as_str ](value: &'a Value) -> (r: Option<&'a str>)
    ensures
        match r {
            Some(text) => json_view(*value).text() == Some(text@),
            None => json_view(*value).text() is None,
        },
;

/// `Value::as_array`: the items of an array in order, and `None` of anything else.
pub assume_specification<'a>[ Value::as_array ](value: &'a Value) -> (r: Option<&'a Vec<Value>>)
    ensures
        match r {
            Some(items) => json_view(*value).items() == Some(
                items@.map_values(|item: Value| json_view(item)),
            ),
            None => json_view(*value).items() is None,
        },
;

/// The members of a `serde_json::Value` by name, as a map from names to documents.
pub open spec fn members_view(members: Seq<(String, Value)>) -> Map<Seq<char>, Json> {
    entry_map(members.map_values(|member: (String, Value)| (member.0@, json_view(member.1))))
}

/// Calls `Value::as_object` and hands out a copy of each member: the members of an object, in
/// no particular order, and `None` of anything else.
#[verifier::external_body]
pub(crate) fn as_object(value: &Value) -> (r: Option<Vec<(String, Value)>>)
    ensures
        match r {
            Some(members) => json_view(*value).members() == Some(members_view(members@)),
            None => json_view(*value).members() is None,
        },
{
    value.as_object().map(|object| object.iter().map(|(k, v)| (k.clone(), v.clone())).collect())
}

/// Displays a `serde_json::Value`: `null`, `true` and `false` as these words, a number as the text
/// by which it counts, and the rest as a text that depends on the document alone.
#[verifier::external_body]
pub(crate) fn display(value: &Value) -> (r: String)
    ensures
        match json_view(*value) {
            Json::Null => r@ == "null"@,
            Json::Bool(true) => r@ == "true"@,
            Json::Bool(false) => r@ == "false"@,
            Json::Number(digits) => r@ == digits,
            json => r@ == displayed_json(json),
        },
{
    value.to_string()
}

/// One parameter of a command.
#[derive(Debug)]
pub enum Param {
    Int(i64),
    Text(String),
}

/// A parameter, as contracts speak of it.
pub enum ParamView {
    Int(int),
    Text(Seq<char>),
}

impl View for Param {
    type V = ParamView;

    open spec fn view(&self) -> ParamView {
        match self {
            Param::Int(n) => ParamView::Int(*n as int),
            Param::Text(text) => ParamView::Text(text@),
        }
    }
}

impl ParamView {
    /// The document that a parameter is.
    pub open spec fn json(self) -> Json {
        match self {
            ParamView::Int(n) => Json::Number(
                if n < 0 {
                    seq!['-'] + decimal((-n) as nat)
                } else {
                    decimal(n as nat)
                },
            ),
            ParamView::Text(text) => Json::Text(text),
        }
    }
}

/// The parameters that a vector holds.
pub open spec fn params_view(params: Seq<Param>) -> Seq<ParamView> {
    params.map_values(|param: Param| param@)
}

/// The array that a list of parameters is.
pub open spec fn params_json(params: Seq<ParamView>) -> Json {
    Json::Array(params.map_values(|param: ParamView| param.json()))
}

/// What stands under one name of a message.
#[derive(Debug)]
pub enum Field<'a> {
    One(Param),
    List(&'a Vec<Param>),
}

impl<'a> Field<'a> {
    /// The document that a field is.
    pub open spec fn json(self) -> Json {
        match self {
            Field::One(param) => param@.json(),
            Field::List(params) => params_json(params_view(params@)),
        }
    }
}

/// Named fields, as contracts speak of them.
pub open spec fn fields_view(fields: Seq<(String, Field<'_>)>) -> Seq<(Seq<char>, Json)> {
    fields.map_values(|field: (String, Field<'_>)| (field.0@, field.1.json()))
}

/// The object that named fields make.
pub open spec fn fields_json(fields: Seq<(String, Field<'_>)>) -> Json {
    Json::Object(entry_map(fields_view(fields)))
}

/// Calls `serde_json::to_string` on the object that `fields` make. It succeeds: a
/// `serde_json::Value` has text for keys, and writing it to memory does not fail. The text
/// depends on the object alone, holds no control character, and reads back as the same object.
#[verifier::external_body]
pub(crate) fn to_string(fields: &Vec<(String, Field<'_>)>) -> (r: Result<String, serde_json::Error>)
    requires
        keys_differ(fields_view(fields@)),
    ensures
        r is Ok,
        r->Ok_0@ == encoded_json(fields_json(fields@)),
        forall|i: int| 0 <= i < r->Ok_0@.len() ==> 0x20 <= #[trigger] r->Ok_0@[i] as u32,
        parsed_json(r->Ok_0@) == Some(fields_json(fields@)),
{
    let scalar = |param: &Param| match param {
        Param::Int(n) => Value::from(*n),
        Param::Text(text) => Value::from(text.as_str()),
    };
    let value = |field: &Field| match field {
        Field::One(param) => scalar(param),
        Field::List(params) => Value::Array(params.iter().map(scalar).collect()),
    };
    let object = fields.iter().map(|field| (field.0.clone(), value(&field.1))).collect();
    serde_json::to_string(&Value::Object(object))
}

/// A number is written in decimal, with a minus sign if it is negative, and a text is a text.
pub proof fn lemma_param_json(param: ParamView)
    ensures
        match param {
            ParamView::Int(n) => param.json() matches Json::Number(digits) && if n >= 0 {
                digits == decimal(n as nat)
            } else {
                digits == seq!['-'] + decimal((-n) as nat)
            },
            ParamView::Text(text) => param.json() == Json::Text(text),
        },
{
}

/// Different parameters are different documents.
pub proof fn lemma_params_differ(a: ParamView, b: ParamView)
    requires
        a.json() == b.json(),
    ensures
        a == b,
{
    if let (ParamView::Int(m), ParamView::Int(n)) = (a, b) {
        let x = if m < 0 {
            (-m) as nat
        } else {
            m as nat
        };
        let y = if n < 0 {
            (-n) as nat
        } else {
            n as nat
        };
        lemma_decimal_reads_back(x, (x + y) as int);
        lemma_decimal_reads_back(y, (x + y) as int);
        lemma_digits_only(x);
        lemma_digits_only(y);
        assert('0' <= decimal(x)[0] <= '9');
        assert('0' <= decimal(y)[0] <= '9');
        let u = seq!['-'] + decimal(x);
        let v = seq!['-'] + decimal(y);
        assert(u[0] == '-' && v[0] == '-');
        assert(u.drop_first() =~= decimal(x));
        assert(v.drop_first() =~= decimal(y));
    }
}

/// A list of parameters is the array of them, in order.
pub proof fn lemma_params_json(params: Seq<ParamView>)
    ensures
        params_json(params) matches Json::Array(items) && items.len() == params.len() && forall|
            i: int,
        |
            0 <= i < params.len() ==> #[trigger] items[i] == params[i].json(),
{
}

} // verus!
