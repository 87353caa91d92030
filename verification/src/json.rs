//! JSON documents as plain data.
//!
//! [`Json`] holds a document as integers, strings and vectors, so that the
//! rest of the library can reason about what is in it. Reading a document
//! from its text and writing it back is the work of `serde_json`.

use vstd::prelude::*;

use crate::text::same_text;

verus! {

/// A JSON document.
#[derive(Debug)]
pub enum Json {
    Null,
    Bool(bool),
    Number(JsonNumber),
    Str(String),
    Array(Vec<Json>),
    /// The members in the order in which they were set. Where a name occurs
    /// twice, the later member is the one that counts.
    Object(Vec<(String, Json)>),
}

/// A JSON number, by the way in which it is represented.
#[derive(Debug)]
pub enum JsonNumber {
    /// A whole number from zero on.
    Unsigned(u64),
    /// A whole number below zero.
    Negative(i64),
    /// Any other number, as its text.
    Float(String),
}

/// The mathematical value of a [`Json`] document.
#[verifier::ext_equal]
pub enum JsonView {
    Null,
    Bool(bool),
    Number(NumberView),
    Str(Seq<char>),
    Array(Seq<JsonView>),
    Object(Map<Seq<char>, JsonView>),
}

/// The mathematical value of a [`JsonNumber`].
#[verifier::ext_equal]
pub enum NumberView {
    Unsigned(u64),
    Negative(i64),
    Float(Seq<char>),
}

impl JsonView {
    /// The text of a string, and nothing for any other document.
    pub open spec fn as_str(self) -> Option<Seq<char>> {
        match self {
            JsonView::Str(text) => Some(text),
            _ => None,
        }
    }

    /// The value of a boolean, and nothing for any other document.
    pub open spec fn as_bool(self) -> Option<bool> {
        match self {
            JsonView::Bool(value) => Some(value),
            _ => None,
        }
    }

    /// The value of a whole number from zero on, and nothing for any other
    /// document.
    pub open spec fn as_u64(self) -> Option<u64> {
        match self {
            JsonView::Number(NumberView::Unsigned(value)) => Some(value),
            _ => None,
        }
    }

    /// The member of an object that has the given name.
    pub open spec fn get(self, name: Seq<char>) -> Option<JsonView> {
        match self {
            JsonView::Object(members) if members.dom().contains(name) => Some(members[name]),
            _ => None,
        }
    }

    /// Every number in the document is a whole number from zero on.
    pub open spec fn whole_numbers(self) -> bool
        decreases self,
    {
        match self {
            JsonView::Number(number) => number is Unsigned,
            JsonView::Array(items) => forall|i: int|
                0 <= i < items.len() ==> (#[trigger] items[i]).whole_numbers(),
            JsonView::Object(members) => members.dom().finite() && forall|name: Seq<char>|
                members.dom().contains(name) ==> (#[trigger] members[name]).whole_numbers(),
            _ => true,
        }
    }

    /// Arrays and objects are nested at most `levels` deep.
    pub open spec fn within_depth(self, levels: nat) -> bool
        decreases self,
    {
        match self {
            JsonView::Array(items) => levels > 0 && forall|i: int|
                0 <= i < items.len() ==> (#[trigger] items[i]).within_depth((levels - 1) as nat),
            JsonView::Object(members) => levels > 0 && members.dom().finite() && forall|
                name: Seq<char>,
            |
                members.dom().contains(name) ==> (#[trigger] members[name]).within_depth(
                    (levels - 1) as nat,
                ),
            _ => true,
        }
    }
}

/// The members that a list of named values stands for: the later of two
/// values under one name is the one that counts.
pub open spec fn members_of<V>(entries: Seq<(Seq<char>, V)>) -> Map<Seq<char>, V>
    decreases entries.len(),
{
    if entries.len() == 0 {
        Map::empty()
    } else {
        members_of(entries.drop_last()).insert(entries.last().0, entries.last().1)
    }
}

impl JsonNumber {
    pub open spec fn model(self) -> NumberView {
        match self {
            JsonNumber::Unsigned(value) => NumberView::Unsigned(value),
            JsonNumber::Negative(value) => NumberView::Negative(value),
            JsonNumber::Float(text) => NumberView::Float(text@),
        }
    }
}

impl Json {
    pub open spec fn model(self) -> JsonView
        decreases self,
    {
        match self {
            Json::Null => JsonView::Null,
            Json::Bool(value) => JsonView::Bool(value),
            Json::Number(number) => JsonView::Number(number.model()),
            Json::Str(text) => JsonView::Str(text@),
            Json::Array(items) => JsonView::Array(item_views(items@)),
            Json::Object(entries) => JsonView::Object(members_of(entry_views(entries@))),
        }
    }

    /// Every number that stands in the document is a whole number from zero on,
    /// and no name occurs twice in an object.
    pub open spec fn writable(self) -> bool
        decreases self,
    {
        match self {
            Json::Number(number) => number is Unsigned,
            Json::Array(items) => forall|i: int|
                0 <= i < items@.len() ==> (#[trigger] items@[i]).writable(),
            Json::Object(entries) => distinct_names(entries@) && forall|i: int|
                0 <= i < entries@.len() ==> (#[trigger] entries@[i]).1.writable(),
            _ => true,
        }
    }
}

impl View for Json {
    type V = JsonView;

    open spec fn view(&self) -> JsonView {
        self.model()
    }
}

/// The views of a list of documents.
pub open spec fn item_views(items: Seq<Json>) -> Seq<JsonView>
    decreases items,
{
    Seq::new(
        items.len(),
        |i: int|
            if 0 <= i < items.len() {
                items[i].model()
            } else {
                JsonView::Null
            },
    )
}

/// The views of a list of named documents.
pub open spec fn entry_views(entries: Seq<(String, Json)>) -> Seq<(Seq<char>, JsonView)>
    decreases entries,
{
    Seq::new(
        entries.len(),
        |i: int|
            if 0 <= i < entries.len() {
                (entries[i].0@, entries[i].1.model())
            } else {
                (Seq::empty(), JsonView::Null)
            },
    )
}

/// No name occurs twice in a list of named values.
pub open spec fn distinct_names<V>(entries: Seq<(String, V)>) -> bool {
    forall|i: int, j: int|
        0 <= i < j < entries.len() ==> (#[trigger] entries[i]).0@ != (#[trigger] entries[j]).0@
}

/// The list makes an object that can be written.
pub open spec fn all_writable(entries: Seq<(String, Json)>) -> bool {
    &&& distinct_names(entries)
    &&& forall|i: int| 0 <= i < entries.len() ==> (#[trigger] entries[i]).1.writable()
}

/// The last entry under a name gives the member of that name.
pub proof fn lemma_members_of<V>(entries: Seq<(Seq<char>, V)>, at: int)
    requires
        0 <= at < entries.len(),
        forall|j: int| at < j < entries.len() ==> entries[j].0 != entries[at].0,
    ensures
        members_of(entries).dom().contains(entries[at].0),
        members_of(entries)[entries[at].0] == entries[at].1,
    decreases entries.len(),
{
    if at < entries.len() - 1 {
        let shorter = entries.drop_last();
        assert(shorter[at] == entries[at]);
        assert forall|j: int| at < j < shorter.len() implies shorter[j].0 != shorter[at].0 by {
            assert(shorter[j] == entries[j]);
        }
        lemma_members_of(shorter, at);
        assert(entries[entries.len() - 1].0 != entries[at].0);
    }
}

/// A name that no entry has is not among the members.
pub proof fn lemma_members_absent<V>(entries: Seq<(Seq<char>, V)>, name: Seq<char>)
    requires
        forall|j: int| 0 <= j < entries.len() ==> entries[j].0 != name,
    ensures
        !members_of(entries).dom().contains(name),
    decreases entries.len(),
{
    if entries.len() > 0 {
        let shorter = entries.drop_last();
        assert forall|j: int| 0 <= j < shorter.len() implies shorter[j].0 != name by {
            assert(shorter[j] == entries[j]);
        }
        lemma_members_absent(shorter, name);
        assert(entries[entries.len() - 1].0 != name);
    }
}

/// The members of a list are finite.
pub proof fn lemma_members_finite<V>(entries: Seq<(Seq<char>, V)>)
    ensures
        members_of(entries).dom().finite(),
    decreases entries.len(),
{
    if entries.len() > 0 {
        lemma_members_finite(entries.drop_last());
    }
}

/// Giving the last entry under a name another value gives the member of that
/// name that value.
pub proof fn lemma_members_update<V>(entries: Seq<(Seq<char>, V)>, at: int, value: V)
    requires
        0 <= at < entries.len(),
        forall|j: int| at < j < entries.len() ==> (#[trigger] entries[j]).0 != entries[at].0,
    ensures
        members_of(entries.update(at, (entries[at].0, value))) == members_of(entries).insert(
            entries[at].0,
            value,
        ),
    decreases entries.len(),
{
    let updated = entries.update(at, (entries[at].0, value));
    let shorter = entries.drop_last();
    if at < entries.len() - 1 {
        lemma_members_update(shorter, at, value);
        assert(updated.drop_last() =~= shorter.update(at, (entries[at].0, value)));
        assert(entries[entries.len() - 1].0 != entries[at].0);
    } else {
        assert(updated.drop_last() =~= shorter);
    }
    assert(members_of(updated) =~= members_of(entries).insert(entries[at].0, value));
}

// ---------------------------------------------------------------------------
// Lists of named values
// ---------------------------------------------------------------------------

/// The position of the last entry under a name.
pub(crate) fn position_of<V>(entries: &Vec<(String, V)>, name: &str) -> (at: Option<usize>)
    ensures
        match at {
            Some(at) => {
                &&& at < entries@.len()
                &&& entries@[at as int].0@ == name@
                &&& forall|j: int|
                    at < j < entries@.len() ==> (#[trigger] entries@[j]).0@ != name@
            },
            None => forall|j: int|
                0 <= j < entries@.len() ==> (#[trigger] entries@[j]).0@ != name@,
        },
{
    let mut at: usize = entries.len();
    while at > 0
        invariant
            at <= entries@.len(),
            forall|j: int| at <= j < entries@.len() ==> (#[trigger] entries@[j]).0@ != name@,
        decreases at,
    {
        at = at - 1;
        if same_text(entries[at].0.as_str(), name) {
            return Some(at);
        }
    }
    None
}

/// Sets the member of the given name.
pub(crate) fn set_member(entries: &mut Vec<(String, Json)>, name: &str, value: Json)
    requires
        all_writable(old(entries)@),
        value.writable(),
    ensures
        all_writable(final(entries)@),
        members_of(entry_views(final(entries)@)) == members_of(
            entry_views(old(entries)@),
        ).insert(name@, value@),
{
    let ghost before = entry_views(entries@);
    match position_of(entries, name) {
        Some(at) => {
            entries.set(at, (name.to_owned(), value));
            proof {
                assert(entry_views(entries@) =~= before.update(at as int, (name@, value@)));
                assert(before[at as int].0 == name@);
                lemma_members_update(before, at as int, value@);
            }
        },
        None => {
            entries.push((name.to_owned(), value));
            assert(entry_views(entries@).drop_last() =~= before);
        },
    }
}

// ---------------------------------------------------------------------------
// Looking into a document
// ---------------------------------------------------------------------------

impl Json {
    /// The text of a string.
    pub fn as_str(&self) -> (text: Option<&str>)
        ensures
            match text {
                Some(text) => self@.as_str() == Some(text@),
                None => self@.as_str() is None,
            },
    {
        match self {
            Json::Str(text) => Some(text.as_str()),
            _ => None,
        }
    }

    /// The value of a boolean.
    pub fn as_bool(&self) -> (value: Option<bool>)
        ensures
            value == self@.as_bool(),
    {
        match self {
            Json::Bool(value) => Some(*value),
            _ => None,
        }
    }

    /// The value of a whole number from zero on.
    pub fn as_u64(&self) -> (value: Option<u64>)
        ensures
            value == self@.as_u64(),
    {
        match self {
            Json::Number(JsonNumber::Unsigned(value)) => Some(*value),
            _ => None,
        }
    }

    /// The items of an array.
    pub fn as_array(&self) -> (items: Option<&Vec<Json>>)
        ensures
            match items {
                Some(items) => self@ == JsonView::Array(item_views(items@)),
                None => self@ !is Array,
            },
    {
        match self {
            Json::Array(items) => {
                Some(items)
            },
            _ => None,
        }
    }

    /// The member of an object that has the given name.
    pub fn get(&self, name: &str) -> (member: Option<&Json>)
        ensures
            match member {
                Some(member) => self@.get(name@) == Some(member@),
                None => self@.get(name@) is None,
            },
    {
        match self {
            Json::Object(entries) => {
                let ghost views = entry_views(entries@);
                match position_of(entries, name) {
                    Some(at) => {
                        proof {
                            lemma_members_of(views, at as int);
                        }
                        Some(&entries[at].1)
                    },
                    None => {
                        proof {
                            lemma_members_absent(views, name@);
                        }
                        None
                    },
                }
            },
            _ => None,
        }
    }
}

// ---------------------------------------------------------------------------
// Laws
// ---------------------------------------------------------------------------

/// A document holds a text exactly where it is a string, and then that string;
/// the same goes for booleans and for whole numbers from zero on.
pub proof fn law_documents_hold_what_they_are(document: JsonView)
    ensures
        forall|text: Seq<char>| document.as_str() == Some(text) <==> document == JsonView::Str(text),
        forall|value: bool| document.as_bool() == Some(value) <==> document == JsonView::Bool(value),
        forall|value: u64|
            document.as_u64() == Some(value) <==> document == JsonView::Number(
                NumberView::Unsigned(value),
            ),
{
}

/// An object has the members that are in it, under their names. No other
/// document has members.
pub proof fn law_objects_have_their_members(document: JsonView, name: Seq<char>)
    ensures
        forall|member: JsonView|
            document.get(name) == Some(member) <==> (document matches JsonView::Object(members)
                && members.dom().contains(name) && members[name] == member),
{
    if let JsonView::Object(members) = document {
        assert(document.get(name) is Some <==> members.dom().contains(name));
    }
}

/// A document in memory stands for the document with the same content.
pub proof fn law_document_content(json: Json)
    ensures
        match json {
            Json::Null => json@ == JsonView::Null,
            Json::Bool(value) => json@ == JsonView::Bool(value),
            Json::Number(JsonNumber::Unsigned(value)) => json@ == JsonView::Number(
                NumberView::Unsigned(value),
            ),
            Json::Number(JsonNumber::Negative(value)) => json@ == JsonView::Number(
                NumberView::Negative(value),
            ),
            Json::Number(JsonNumber::Float(text)) => json@ == JsonView::Number(
                NumberView::Float(text@),
            ),
            Json::Str(text) => json@ == JsonView::Str(text@),
            Json::Array(items) => {
                &&& json@ matches JsonView::Array(views)
                &&& views.len() == items@.len()
                &&& forall|i: int| 0 <= i < items@.len() ==> #[trigger] views[i] == items@[i]@
            },
            Json::Object(entries) => {
                &&& json@ matches JsonView::Object(members)
                &&& forall|i: int|
                    0 <= i < entries@.len() && (forall|j: int|
                        i < j < entries@.len() ==> entries@[j].0@ != (#[trigger] entries@[i]).0@)
                        ==> members.dom().contains((#[trigger] entries@[i]).0@)
                        && members[entries@[i].0@] == entries@[i].1@
                &&& forall|name: Seq<char>|
                    (forall|j: int| 0 <= j < entries@.len() ==> (#[trigger] entries@[j]).0@ != name)
                        ==> !(#[trigger] members.dom().contains(name))
            },
        },
        json matches Json::Array(items) ==> json@ == JsonView::Array(item_views(items@)),
{
    match json {
        Json::Object(entries) => {
            let views = entry_views(entries@);
            let members = members_of(views);
            assert(json@ == JsonView::Object(members));
            assert forall|i: int|
                0 <= i < entries@.len() && (forall|j: int|
                    i < j < entries@.len() ==> entries@[j].0@ != (
                    #[trigger] entries@[i]).0@) implies members.dom().contains(
                (#[trigger] entries@[i]).0@,
            ) && members[entries@[i].0@] == entries@[i].1@ by {
                assert(views[i] == (entries@[i].0@, entries@[i].1@));
                assert forall|j: int| i < j < views.len() implies views[j].0 != views[i].0 by {
                    assert(views[j].0 == entries@[j].0@);
                }
                lemma_members_of(views, i);
            }
            assert forall|name: Seq<char>|
                (forall|j: int|
                    0 <= j < entries@.len() ==> (#[trigger] entries@[j]).0@
                        != name) implies !(#[trigger] members.dom().contains(name)) by {
                assert forall|j: int| 0 <= j < views.len() implies views[j].0 != name by {
                    assert(views[j].0 == entries@[j].0@);
                }
                lemma_members_absent(views, name);
            }
        },
        Json::Array(items) => {
            assert(json@ == JsonView::Array(item_views(items@)));
        },
        _ => {},
    }
}

/// The views of a list are those of its elements, in their order.
pub proof fn law_list_content(items: Seq<Json>, entries: Seq<(String, Json)>)
    ensures
        item_views(items).len() == items.len(),
        forall|i: int| 0 <= i < items.len() ==> #[trigger] item_views(items)[i] == items[i]@,
        entry_views(entries).len() == entries.len(),
        forall|i: int|
            0 <= i < entries.len() ==> #[trigger] entry_views(entries)[i] == (
                entries[i].0@,
                entries[i].1@,
            ),
{
}

/// Setting one more member sets that member, and no other.
pub proof fn law_later_member_counts<V>(
    entries: Seq<(Seq<char>, V)>,
    name: Seq<char>,
    value: V,
    other: Seq<char>,
)
    ensures
        members_of(entries.push((name, value))).dom().contains(name),
        members_of(entries.push((name, value)))[name] == value,
        other != name ==> (members_of(entries.push((name, value))).dom().contains(other)
            <==> members_of(entries).dom().contains(other)),
        other != name && members_of(entries).dom().contains(other) ==> members_of(
            entries.push((name, value)),
        )[other] == members_of(entries)[other],
        members_of(Seq::<(Seq<char>, V)>::empty()).dom() == Set::<Seq<char>>::empty(),
{
    assert(entries.push((name, value)).drop_last() =~= entries);
}

} // verus!
