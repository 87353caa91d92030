//! Reading and writing JSON text with `serde_json`.
//!
//! A `serde_json::Value` is opaque here. [`json_value`] names the document
//! that it holds, [`open_value`] and [`close_value`] take it apart and put it
//! together one level at a time, and the functions below them convert whole
//! documents from and to [`Json`].

use serde::de::Unexpected;
use vstd::prelude::*;

use crate::json::{distinct_names, entry_views, item_views, members_of};
use crate::json::{lemma_members_absent, lemma_members_finite, lemma_members_of};
use crate::json::{Json, JsonNumber, JsonView, NumberView};
use crate::text::{decimal, signed_decimal};

verus! {

/// `serde_json::Value`, the document tree of `serde_json`.
#[verifier::external_type_specification]
#[verifier::external_body]
pub struct ExValue(serde_json::Value);

/// The document that a `serde_json::Value` holds.
pub uninterp spec fn json_value(value: serde_json::Value) -> JsonView;

/// What `serde_json::from_str` makes of a text: the document that the text
/// stands for, or the message of the error.
pub uninterp spec fn parsed_json(text: Seq<char>) -> Result<JsonView, Seq<char>>;

/// The compact text in which `serde_json::to_string` writes a document.
pub uninterp spec fn json_text(document: JsonView) -> Seq<char>;

/// The text is JSON and stands for the given document.
pub open spec fn reads_as(text: Seq<char>, document: JsonView) -> bool {
    parsed_json(text) == Ok::<JsonView, Seq<char>>(document)
}

/// The documents that `serde_json::from_str` gives back as they were written:
/// every number in them is a whole number from zero on, and arrays and objects
/// are nested at most 127 deep.
pub open spec fn readable(document: JsonView) -> bool {
    document.whole_numbers() && document.within_depth(127)
}

/// One level of a `serde_json::Value`.
enum Node {
    Null,
    Bool(bool),
    /// The number as `u64` and as `i64`, where it is one, and its text.
    Number(Option<u64>, Option<i64>, String),
    Str(String),
    Array(Vec<serde_json::Value>),
    Object(Vec<(String, serde_json::Value)>),
}

/// The way in which a number is represented, by its three readings.
spec fn number_of(unsigned: Option<u64>, signed: Option<i64>, text: Seq<char>) -> NumberView {
    match (unsigned, signed) {
        (Some(value), _) => NumberView::Unsigned(value),
        (None, Some(value)) => NumberView::Negative(value),
        (None, None) => NumberView::Float(text),
    }
}

/// The documents that a list of values holds.
spec fn value_views(values: Seq<serde_json::Value>) -> Seq<JsonView> {
    Seq::new(values.len(), |i: int| json_value(values[i]))
}

/// The named documents that a list of named values holds.
spec fn named_views(values: Seq<(String, serde_json::Value)>) -> Seq<(Seq<char>, JsonView)> {
    Seq::new(values.len(), |i: int| (values[i].0@, json_value(values[i].1)))
}

impl Node {
    spec fn model(self) -> JsonView {
        match self {
            Node::Null => JsonView::Null,
            Node::Bool(value) => JsonView::Bool(value),
            Node::Number(unsigned, signed, text) => JsonView::Number(
                number_of(unsigned, signed, text@),
            ),
            Node::Str(text) => JsonView::Str(text@),
            Node::Array(values) => JsonView::Array(value_views(values@)),
            Node::Object(values) => JsonView::Object(members_of(named_views(values@))),
        }
    }
}

/// `serde_json::from_str`: reads a text as a document. Nothing is claimed of
/// which texts are JSON: the result is the one that [`parsed_json`] names, and
/// in the case of an error its message.
#[verifier::external_body]
fn value_from_str(text: &str) -> (r: Result<serde_json::Value, String>)
    ensures
        match r {
            Ok(value) => reads_as(text@, json_value(value)),
            Err(message) => parsed_json(text@) == Err::<JsonView, Seq<char>>(message@),
        },
{
    match serde_json::from_str::<serde_json::Value>(text) {
        Ok(value) => Ok(value),
        Err(error) => Err(error.to_string()),
    }
}

/// `serde_json::to_string` on a document: writes it as compact text. The text
/// is the one that [`json_text`] names, and `serde_json::from_str` gives the
/// document back, provided that its numbers are whole and from zero on (a
/// float may lose precision on the way). It goes one call deeper with each level
/// of nesting; documents are nested no deeper than `from_str` reads.
#[verifier::external_body]
fn value_to_string(value: &serde_json::Value) -> (text: String)
    requires
        json_value(*value).within_depth(127),
    ensures
        text@ == json_text(json_value(*value)),
        readable(json_value(*value)) ==> reads_as(text@, json_value(*value)),
{
    serde_json::to_string(value).unwrap()
}

/// The variants of `serde_json::Value`: takes a document apart, one level
/// deep. No name occurs twice among the members of an object.
#[verifier::external_body]
fn open_value(value: serde_json::Value) -> (node: Node)
    ensures
        node.model() == json_value(value),
        node matches Node::Object(values) ==> distinct_names(values@),
{
    match value {
        serde_json::Value::Null => Node::Null,
        serde_json::Value::Bool(value) => Node::Bool(value),
        serde_json::Value::Number(n) => Node::Number(n.as_u64(), n.as_i64(), n.to_string()),
        serde_json::Value::String(text) => Node::Str(text),
        serde_json::Value::Array(values) => Node::Array(values),
        serde_json::Value::Object(values) => Node::Object(values.into_iter().collect()),
    }
}

/// The variants of `serde_json::Value`: puts a document together from one
/// level of it.
#[verifier::external_body]
fn close_value(node: Node) -> (value: serde_json::Value)
    requires
        node matches Node::Number(unsigned, _, _) ==> unsigned is Some,
        node matches Node::Object(values) ==> distinct_names(values@),
    ensures
        json_value(value) == node.model(),
{
    match node {
        Node::Null => serde_json::Value::Null,
        Node::Bool(value) => serde_json::Value::Bool(value),
        Node::Number(unsigned, _, _) => serde_json::Value::from(unsigned),
        Node::Str(text) => serde_json::Value::String(text),
        Node::Array(values) => serde_json::Value::Array(values),
        Node::Object(values) => serde_json::Value::Object(values.into_iter().collect()),
    }
}

/// An expectation that `serde_json` repeats as it stands. It takes a message
/// that ends in ` at line ` and two numbers for one with a position in it, and
/// may word that position anew; neither a short expectation nor one that ends
/// in no digit makes such a message.
pub open spec fn repeated_verbatim(expected: Seq<char>) -> bool {
    &&& 0 < expected.len()
    &&& expected.len() < 9 || !('0' <= expected.last() <= '9')
}

/// What `serde` calls a document in a message, where that takes no escaping of
/// text and no writing of a fraction.
pub open spec fn found_text(found: JsonView) -> Option<Seq<char>> {
    match found {
        JsonView::Null => Some("null"@),
        JsonView::Bool(true) => Some("boolean `true`"@),
        JsonView::Bool(false) => Some("boolean `false`"@),
        JsonView::Number(NumberView::Unsigned(n)) => Some("integer `"@ + decimal(n as nat) + "`"@),
        JsonView::Number(NumberView::Negative(n)) => Some(
            "integer `"@ + signed_decimal(n as int) + "`"@,
        ),
        JsonView::Number(NumberView::Float(_)) => None,
        JsonView::Str(_) => None,
        JsonView::Array(_) => Some("sequence"@),
        JsonView::Object(_) => Some("map"@),
    }
}

/// The message of the `invalid_type` error of `serde_json` for a document that
/// [`found_text`] has no words for.
pub uninterp spec fn invalid_type_text(found: JsonView, expected: Seq<char>) -> Seq<char>;

/// The message for a document that is not of the expected kind.
pub open spec fn invalid_type_message(found: JsonView, expected: Seq<char>) -> Seq<char> {
    match found_text(found) {
        Some(words) => "invalid type: "@ + words + ", expected "@ + expected,
        None => invalid_type_text(found, expected),
    }
}

/// `serde::de::Error::invalid_type` of `serde_json::Error`: says what was found
/// and what was expected. How a text or a fraction is written in the message is
/// left to [`invalid_type_text`].
#[verifier::external_body]
pub(crate) fn invalid_type(found: &Json, expected: &str) -> (message: String)
    requires
        repeated_verbatim(expected@),
    ensures
        match found_text(found@) {
            Some(words) => message@ == "invalid type: "@ + words + ", expected "@ + expected@,
            None => message@ == invalid_type_text(found@, expected@),
        },
{
    let found = match found {
        Json::Null => Unexpected::Unit,
        Json::Bool(value) => Unexpected::Bool(*value),
        Json::Number(JsonNumber::Unsigned(n)) => Unexpected::Unsigned(*n),
        Json::Number(JsonNumber::Negative(n)) => Unexpected::Signed(*n),
        Json::Number(JsonNumber::Float(text)) => match text.parse() {
            Ok(value) => Unexpected::Float(value),
            Err(_) => Unexpected::Other(text),
        },
        Json::Str(text) => Unexpected::Str(text),
        Json::Array(_) => Unexpected::Seq,
        Json::Object(_) => Unexpected::Map,
    };
    <serde_json::Error as serde::de::Error>::invalid_type(found, &expected).to_string()
}

/// `serde::de::Error::invalid_value` of `serde_json::Error`, for a signed whole
/// number: says the number and what was expected.
#[verifier::external_body]
pub(crate) fn invalid_value(found: i64, expected: &str) -> (message: String)
    requires
        repeated_verbatim(expected@),
    ensures
        message@ == "invalid value: integer `"@ + signed_decimal(found as int) + "`, expected "@
            + expected@,
{
    let found = Unexpected::Signed(found);
    <serde_json::Error as serde::de::Error>::invalid_value(found, &expected).to_string()
}

/// `serde::de::Error::invalid_length` of `serde_json::Error`: says how many
/// elements were found and what was expected.
#[verifier::external_body]
pub(crate) fn invalid_length(found: usize, expected: &str) -> (message: String)
    requires
        repeated_verbatim(expected@),
    ensures
        message@ == "invalid length "@ + decimal(found as nat) + ", expected "@ + expected@,
{
    <serde_json::Error as serde::de::Error>::invalid_length(found, &expected).to_string()
}

/// The plain form of a document.
fn from_value(value: serde_json::Value) -> (json: Json)
    ensures
        json@ == json_value(value),
    decreases json_value(value),
{
    let ghost document = json_value(value);
    match open_value(value) {
        Node::Null => Json::Null,
        Node::Bool(value) => Json::Bool(value),
        Node::Number(Some(value), _, _) => Json::Number(JsonNumber::Unsigned(value)),
        Node::Number(None, Some(value), _) => Json::Number(JsonNumber::Negative(value)),
        Node::Number(None, None, text) => Json::Number(JsonNumber::Float(text)),
        Node::Str(text) => Json::Str(text),
        Node::Array(values) => {
            let mut items: Vec<Json> = Vec::new();
            let ghost all = values@;
            let ghost views = value_views(all);
            for item in it: values
                invariant
                    it.seq() == all,
                    views == value_views(all),
                    document == JsonView::Array(views),
                    document == json_value(value),
                    items@.len() == it.index(),
                    forall|i: int| 0 <= i < items@.len() ==> (#[trigger] items@[i])@ == views[i],
            {
                assert(json_value(item) == views[it.index()]);
                assert(decreases_to!(document => document->Array_0));
                assert(decreases_to!(document->Array_0 => document->Array_0[it.index()]));
                items.push(from_value(item));
            }
            assert(item_views(items@) =~= views);
            Json::Array(items)
        },
        Node::Object(values) => {
            let mut entries: Vec<(String, Json)> = Vec::new();
            let ghost all = values@;
            let ghost views = named_views(all);
            proof {
                lemma_members_finite(views);
            }
            for entry in it: values
                invariant
                    it.seq() == all,
                    views == named_views(all),
                    document == JsonView::Object(members_of(views)),
                    document == json_value(value),
                    document->Object_0.dom().finite(),
                    distinct_names(all),
                    entries@.len() == it.index(),
                    forall|i: int|
                        0 <= i < entries@.len() ==> ((#[trigger] entries@[i]).0@, entries@[i].1@)
                            == views[i],
            {
                let (name, member) = entry;
                proof {
                    let at = it.index();
                    assert(views[at] == (name@, json_value(member)));
                    assert forall|j: int| at < j < views.len() implies (#[trigger] views[j]).0
                        != views[at].0 by {
                        assert(all[at].0@ != all[j].0@);
                    }
                    lemma_members_of(views, at);
                    assert(decreases_to!(document => document->Object_0));
                    assert(decreases_to!(document->Object_0 => document->Object_0[name@]));
                }
                entries.push((name, from_value(member)));
            }
            assert(entry_views(entries@) =~= views);
            Json::Object(entries)
        },
    }
}

/// The document as a value of `serde_json`.
fn to_value(json: &Json) -> (value: serde_json::Value)
    requires
        json.writable(),
    ensures
        json_value(value) == json@,
    decreases json,
{
    match json {
        Json::Null => close_value(Node::Null),
        Json::Bool(value) => close_value(Node::Bool(*value)),
        Json::Number(JsonNumber::Unsigned(value)) => close_value(
            Node::Number(Some(*value), None, String::new()),
        ),
        Json::Number(_) => close_value(Node::Null),
        Json::Str(text) => close_value(Node::Str(text.clone())),
        Json::Array(items) => {
            let mut values: Vec<serde_json::Value> = Vec::new();
            let mut i: usize = 0;
            while i < items.len()
                invariant
                    i <= items.len(),
                    json.writable(),
                    *json == Json::Array(*items),
                    values@.len() == i,
                    forall|j: int|
                        0 <= j < i ==> json_value(#[trigger] values@[j]) == items@[j]@,
                decreases items.len() - i,
            {
                assert(decreases_to!(json => json->Array_0));
                assert(decreases_to!(items => items@));
                assert(decreases_to!(items@ => items@[i as int]));
                values.push(to_value(&items[i]));
                i = i + 1;
            }
            assert(value_views(values@) =~= item_views(items@));
            close_value(Node::Array(values))
        },
        Json::Object(entries) => {
            let mut values: Vec<(String, serde_json::Value)> = Vec::new();
            let mut i: usize = 0;
            while i < entries.len()
                invariant
                    i <= entries.len(),
                    json.writable(),
                    *json == Json::Object(*entries),
                    values@.len() == i,
                    forall|j: int|
                        0 <= j < i ==> ((#[trigger] values@[j]).0@, json_value(values@[j].1)) == (
                            entries@[j].0@,
                            entries@[j].1@,
                        ),
                decreases entries.len() - i,
            {
                assert(decreases_to!(json => json->Object_0));
                assert(decreases_to!(entries => entries@));
                assert(decreases_to!(entries@ => entries@[i as int]));
                assert(decreases_to!(entries@[i as int] => entries@[i as int].1));
                values.push((entries[i].0.clone(), to_value(&entries[i].1)));
                i = i + 1;
            }
            proof {
                assert(named_views(values@) =~= entry_views(entries@));
                assert forall|j: int, k: int| 0 <= j < k < values@.len() implies (
                #[trigger] values@[j]).0@ != (#[trigger] values@[k]).0@ by {
                    assert(entries@[j].0@ != entries@[k].0@);
                }
            }
            close_value(Node::Object(values))
        },
    }
}

impl Json {
    /// Reads a text as a JSON document.
    ///
    /// The error is the message that `serde_json` gives of the first fault in
    /// the text.
    pub fn from_text(text: &str) -> (r: Result<Json, String>)
        ensures
            match r {
                Ok(json) => parsed_json(text@) == Ok::<JsonView, Seq<char>>(json@),
                Err(message) => parsed_json(text@) == Err::<JsonView, Seq<char>>(message@),
            },
    {
        match value_from_str(text) {
            Ok(value) => Ok(from_value(value)),
            Err(message) => Err(message),
        }
    }

    /// Writes the document as compact JSON text.
    pub(crate) fn to_text(&self) -> (text: String)
        requires
            self.writable(),
            self@.within_depth(127),
        ensures
            text@ == json_text(self@),
            readable(self@) ==> reads_as(text@, self@),
    {
        value_to_string(&to_value(self))
    }
}

// ---------------------------------------------------------------------------
// Laws
// ---------------------------------------------------------------------------

/// A text reads as a document exactly where `serde_json` makes that document of
/// it.
pub proof fn law_reading_is_parsing(text: Seq<char>, document: JsonView)
    ensures
        reads_as(text, document) <==> parsed_json(text) == Ok::<JsonView, Seq<char>>(document),
{
}

/// A text reads as one document only.
pub proof fn law_text_reads_as_one_document(text: Seq<char>, a: JsonView, b: JsonView)
    requires
        reads_as(text, a),
        reads_as(text, b),
    ensures
        a == b,
{
}

/// A number that is a `u64` is held as one, any other that is an `i64` as one,
/// and any other as its text.
proof fn law_number_readings(unsigned: u64, signed: i64, other: Option<i64>, text: Seq<char>)
    ensures
        number_of(Some(unsigned), other, text) == NumberView::Unsigned(unsigned),
        number_of(None, Some(signed), text) == NumberView::Negative(signed),
        number_of(None, None, text) == NumberView::Float(text),
{
}

/// One level of a value stands for the document with the same content.
proof fn law_node_content(node: Node)
    ensures
        match node {
            Node::Null => node.model() == JsonView::Null,
            Node::Bool(value) => node.model() == JsonView::Bool(value),
            Node::Number(unsigned, signed, text) => node.model() == JsonView::Number(
                number_of(unsigned, signed, text@),
            ),
            Node::Str(text) => node.model() == JsonView::Str(text@),
            Node::Array(values) => {
                &&& node.model() matches JsonView::Array(views)
                &&& views.len() == values@.len()
                &&& forall|i: int|
                    0 <= i < values@.len() ==> #[trigger] views[i] == json_value(values@[i])
            },
            Node::Object(values) => {
                &&& node.model() matches JsonView::Object(members)
                &&& forall|i: int|
                    distinct_names(values@) && 0 <= i < values@.len() ==> members.dom().contains(
                        (#[trigger] values@[i]).0@,
                    ) && members[values@[i].0@] == json_value(values@[i].1)
                &&& forall|name: Seq<char>| #[trigger]
                    members.dom().contains(name) ==> exists|i: int|
                        0 <= i < values@.len() && (#[trigger] values@[i]).0@ == name
            },
        },
{
    if let Node::Object(values) = node {
        let views = named_views(values@);
        let members = members_of(views);
        assert forall|i: int| distinct_names(values@) && 0 <= i < values@.len() implies members.dom().contains(
            (#[trigger] values@[i]).0@,
        ) && members[values@[i].0@] == json_value(values@[i].1) by {
            assert(views[i] == (values@[i].0@, json_value(values@[i].1)));
            assert forall|j: int| i < j < views.len() implies views[j].0 != views[i].0 by {
                assert(values@[i].0@ != values@[j].0@);
            }
            lemma_members_of(views, i);
        }
        assert forall|name: Seq<char>| #[trigger] members.dom().contains(name) implies exists|i: int|
            0 <= i < values@.len() && (#[trigger] values@[i]).0@ == name by {
            if forall|i: int| 0 <= i < values@.len() ==> (#[trigger] values@[i]).0@ != name {
                assert forall|j: int| 0 <= j < views.len() implies views[j].0 != name by {
                    assert(values@[j].0@ != name);
                }
                lemma_members_absent(views, name);
            }
        }
    }
}

/// The words for each kind of document, and the message that they stand in.
pub proof fn law_type_error_wording(
    items: Seq<JsonView>,
    members: Map<Seq<char>, JsonView>,
    unsigned: u64,
    signed: i64,
    text: Seq<char>,
    expected: Seq<char>,
)
    ensures
        invalid_type_message(JsonView::Null, expected) == "invalid type: "@ + "null"@
            + ", expected "@ + expected,
        invalid_type_message(JsonView::Bool(true), expected) == "invalid type: "@
            + "boolean `true`"@ + ", expected "@ + expected,
        invalid_type_message(JsonView::Bool(false), expected) == "invalid type: "@
            + "boolean `false`"@ + ", expected "@ + expected,
        invalid_type_message(JsonView::Number(NumberView::Unsigned(unsigned)), expected)
            == "invalid type: "@ + ("integer `"@ + decimal(unsigned as nat) + "`"@)
            + ", expected "@ + expected,
        invalid_type_message(JsonView::Number(NumberView::Negative(signed)), expected)
            == "invalid type: "@ + ("integer `"@ + signed_decimal(signed as int) + "`"@)
            + ", expected "@ + expected,
        invalid_type_message(JsonView::Array(items), expected) == "invalid type: "@ + "sequence"@
            + ", expected "@ + expected,
        invalid_type_message(JsonView::Object(members), expected) == "invalid type: "@ + "map"@
            + ", expected "@ + expected,
        invalid_type_message(JsonView::Str(text), expected) == invalid_type_text(
            JsonView::Str(text),
            expected,
        ),
        invalid_type_message(JsonView::Number(NumberView::Float(text)), expected)
            == invalid_type_text(JsonView::Number(NumberView::Float(text)), expected),
{
}

} // verus!
