//! Nostr events and their JSON form.

use vstd::prelude::*;
use vstd::string::*;

use crate::codec::{invalid_length, invalid_type, invalid_type_message, invalid_value};
use crate::json::{entry_views, item_views, law_objects_have_their_members, members_of};
use crate::json::{Json, JsonNumber, JsonView, NumberView};
use crate::text::{decimal, signed_decimal};

verus! {

/// A Nostr event as defined by NIP-01.
#[derive(Debug, PartialEq, Eq)]
pub struct NostrEvent {
    pub id: String,
    pub pubkey: String,
    pub created_at: u64,
    pub kind: u64,
    pub tags: Vec<Vec<String>>,
    pub content: String,
    pub sig: String,
}

/// The mathematical value of a [`NostrEvent`].
#[verifier::ext_equal]
pub struct NostrEventView {
    pub id: Seq<char>,
    pub pubkey: Seq<char>,
    pub created_at: u64,
    pub kind: u64,
    pub tags: Seq<Seq<Seq<char>>>,
    pub content: Seq<char>,
    pub sig: Seq<char>,
}

impl View for NostrEvent {
    type V = NostrEventView;

    open spec fn view(&self) -> NostrEventView {
        NostrEventView {
            id: self.id@,
            pubkey: self.pubkey@,
            created_at: self.created_at,
            kind: self.kind,
            tags: self.tags.deep_view(),
            content: self.content@,
            sig: self.sig@,
        }
    }
}

impl Clone for NostrEvent {
    fn clone(&self) -> (r: Self)
        ensures
            r@ == self@,
    {
        let tags = self.tags.clone();
        assert(tags.deep_view() =~~= self.tags.deep_view());
        NostrEvent {
            id: self.id.clone(),
            pubkey: self.pubkey.clone(),
            created_at: self.created_at,
            kind: self.kind,
            tags,
            content: self.content.clone(),
            sig: self.sig.clone(),
        }
    }
}

// ---------------------------------------------------------------------------
// The JSON form of an event
// ---------------------------------------------------------------------------

/// A list of texts as a JSON array of strings.
pub open spec fn texts_json(texts: Seq<Seq<char>>) -> JsonView {
    JsonView::Array(Seq::new(texts.len(), |i: int| JsonView::Str(texts[i])))
}

/// The tags of an event as a JSON array of arrays of strings.
pub open spec fn tags_json(tags: Seq<Seq<Seq<char>>>) -> JsonView {
    JsonView::Array(Seq::new(tags.len(), |i: int| texts_json(tags[i])))
}

/// A whole number from zero on as a JSON number.
pub open spec fn number_json(value: u64) -> JsonView {
    JsonView::Number(NumberView::Unsigned(value))
}

/// An event as a JSON object with one member for each field.
pub open spec fn event_json(event: NostrEventView) -> JsonView {
    JsonView::Object(
        map![
            "id"@ => JsonView::Str(event.id),
            "pubkey"@ => JsonView::Str(event.pubkey),
            "created_at"@ => number_json(event.created_at),
            "kind"@ => number_json(event.kind),
            "tags"@ => tags_json(event.tags),
            "content"@ => JsonView::Str(event.content),
            "sig"@ => JsonView::Str(event.sig),
        ],
    )
}

/// Builds a JSON array of strings.
pub(crate) fn texts_to_json(texts: &Vec<String>) -> (json: Json)
    ensures
        json@ == texts_json(texts.deep_view()),
        json.writable(),
{
    let mut items: Vec<Json> = Vec::new();
    let mut i: usize = 0;
    while i < texts.len()
        invariant
            i <= texts.len(),
            items@.len() == i,
            forall|j: int| 0 <= j < i ==> #[trigger] items@[j] == Json::Str(texts@[j]),
        decreases texts.len() - i,
    {
        items.push(Json::Str(texts[i].clone()));
        i = i + 1;
    }
    proof {
        assert(item_views(items@) =~= texts_json(texts.deep_view())->Array_0);
        reveal_with_fuel(Json::writable, 2);
    }
    Json::Array(items)
}

/// Builds a JSON array of arrays of strings.
fn tags_to_json(tags: &Vec<Vec<String>>) -> (json: Json)
    ensures
        json@ == tags_json(tags.deep_view()),
        json.writable(),
{
    let mut items: Vec<Json> = Vec::new();
    let mut i: usize = 0;
    while i < tags.len()
        invariant
            i <= tags.len(),
            items@.len() == i,
            forall|j: int|
                0 <= j < i ==> (#[trigger] items@[j])@ == texts_json(tags@[j].deep_view())
                    && items@[j].writable(),
        decreases tags.len() - i,
    {
        items.push(texts_to_json(&tags[i]));
        i = i + 1;
    }
    assert(item_views(items@) =~= tags_json(tags.deep_view())->Array_0);
    Json::Array(items)
}

impl NostrEvent {
    /// The event as a JSON object.
    pub fn to_document(&self) -> (json: Json)
        ensures
            json@ == event_json(self@),
            json.writable(),
    {
        let mut entries: Vec<(String, Json)> = Vec::new();
        entries.push(("id".to_owned(), Json::Str(self.id.clone())));
        entries.push(("pubkey".to_owned(), Json::Str(self.pubkey.clone())));
        entries.push(
            ("created_at".to_owned(), Json::Number(JsonNumber::Unsigned(self.created_at))),
        );
        entries.push(("kind".to_owned(), Json::Number(JsonNumber::Unsigned(self.kind))));
        entries.push(("tags".to_owned(), tags_to_json(&self.tags)));
        entries.push(("content".to_owned(), Json::Str(self.content.clone())));
        entries.push(("sig".to_owned(), Json::Str(self.sig.clone())));
        proof {
            let views = entry_views(entries@);
            assert(views =~= seq![
                ("id"@, JsonView::Str(self.id@)),
                ("pubkey"@, JsonView::Str(self.pubkey@)),
                ("created_at"@, number_json(self.created_at)),
                ("kind"@, number_json(self.kind)),
                ("tags"@, tags_json(self.tags.deep_view())),
                ("content"@, JsonView::Str(self.content@)),
                ("sig"@, JsonView::Str(self.sig@)),
            ]);
            lemma_field_names_differ();
            reveal_with_fuel(members_of, 8);
            reveal_with_fuel(Json::writable, 2);
            assert(members_of(views) =~= event_json(self@)->Object_0);
        }
        Json::Object(entries)
    }
}

// ---------------------------------------------------------------------------
// Reading an event
// ---------------------------------------------------------------------------

/// A document read as a text.
pub open spec fn text_of(document: JsonView) -> Result<Seq<char>, Seq<char>> {
    match document.as_str() {
        Some(text) => Ok(text),
        None => Err(invalid_type_message(document, "a string"@)),
    }
}

/// A document read as a whole number from zero on.
pub open spec fn number_of(document: JsonView) -> Result<u64, Seq<char>> {
    match document {
        JsonView::Number(NumberView::Unsigned(value)) => Ok(value),
        JsonView::Number(NumberView::Negative(value)) => Err(
            "invalid value: integer `"@ + signed_decimal(value as int) + "`, expected "@ + "u64"@,
        ),
        _ => Err(invalid_type_message(document, "u64"@)),
    }
}

/// A list of documents read as texts; the first that is none decides the error.
pub open spec fn texts_of_items(items: Seq<JsonView>) -> Result<Seq<Seq<char>>, Seq<char>>
    decreases items.len(),
{
    if items.len() == 0 {
        Ok(Seq::empty())
    } else {
        match (texts_of_items(items.drop_last()), text_of(items.last())) {
            (Err(message), _) => Err(message),
            (Ok(_), Err(message)) => Err(message),
            (Ok(texts), Ok(text)) => Ok(texts.push(text)),
        }
    }
}

/// A document read as a list of texts.
pub open spec fn texts_of(document: JsonView) -> Result<Seq<Seq<char>>, Seq<char>> {
    match document {
        JsonView::Array(items) => texts_of_items(items),
        _ => Err(invalid_type_message(document, "a sequence"@)),
    }
}

/// A list of documents read as tags; the first that is none decides the error.
pub open spec fn tags_of_items(items: Seq<JsonView>) -> Result<Seq<Seq<Seq<char>>>, Seq<char>>
    decreases items.len(),
{
    if items.len() == 0 {
        Ok(Seq::empty())
    } else {
        match (tags_of_items(items.drop_last()), texts_of(items.last())) {
            (Err(message), _) => Err(message),
            (Ok(_), Err(message)) => Err(message),
            (Ok(tags), Ok(tag)) => Ok(tags.push(tag)),
        }
    }
}

/// A document read as the tags of an event.
pub open spec fn tags_of(document: JsonView) -> Result<Seq<Seq<Seq<char>>>, Seq<char>> {
    match document {
        JsonView::Array(items) => tags_of_items(items),
        _ => Err(invalid_type_message(document, "a sequence"@)),
    }
}

/// A member read as a text, where it is there.
pub open spec fn text_member(document: JsonView, name: Seq<char>) -> Result<
    Option<Seq<char>>,
    Seq<char>,
> {
    match document.get(name) {
        Some(member) => match text_of(member) {
            Ok(text) => Ok(Some(text)),
            Err(message) => Err(message),
        },
        None => Ok(None),
    }
}

/// A member read as a whole number from zero on, where it is there.
pub open spec fn number_member(document: JsonView, name: Seq<char>) -> Result<
    Option<u64>,
    Seq<char>,
> {
    match document.get(name) {
        Some(member) => match number_of(member) {
            Ok(value) => Ok(Some(value)),
            Err(message) => Err(message),
        },
        None => Ok(None),
    }
}

/// A member read as tags, where it is there.
pub open spec fn tags_member(document: JsonView, name: Seq<char>) -> Result<
    Option<Seq<Seq<Seq<char>>>>,
    Seq<char>,
> {
    match document.get(name) {
        Some(member) => match tags_of(member) {
            Ok(tags) => Ok(Some(tags)),
            Err(message) => Err(message),
        },
        None => Ok(None),
    }
}

/// The message for a member that is not there.
pub open spec fn missing_field_text(name: Seq<char>) -> Seq<char> {
    "missing field `"@ + name + "`"@
}

/// An object read as an event.
///
/// A member of the wrong kind is reported before one that is missing: the
/// first of the former in the order of the names, or else the first of the
/// latter in the order of the fields. Members with other names are ignored.
pub open spec fn event_of_object(document: JsonView) -> Result<NostrEventView, Seq<char>> {
    let content = text_member(document, "content"@);
    let created_at = number_member(document, "created_at"@);
    let id = text_member(document, "id"@);
    let kind = number_member(document, "kind"@);
    let pubkey = text_member(document, "pubkey"@);
    let sig = text_member(document, "sig"@);
    let tags = tags_member(document, "tags"@);
    if content is Err {
        Err(content->Err_0)
    } else if created_at is Err {
        Err(created_at->Err_0)
    } else if id is Err {
        Err(id->Err_0)
    } else if kind is Err {
        Err(kind->Err_0)
    } else if pubkey is Err {
        Err(pubkey->Err_0)
    } else if sig is Err {
        Err(sig->Err_0)
    } else if tags is Err {
        Err(tags->Err_0)
    } else if id->Ok_0 is None {
        Err(missing_field_text("id"@))
    } else if pubkey->Ok_0 is None {
        Err(missing_field_text("pubkey"@))
    } else if created_at->Ok_0 is None {
        Err(missing_field_text("created_at"@))
    } else if kind->Ok_0 is None {
        Err(missing_field_text("kind"@))
    } else if tags->Ok_0 is None {
        Err(missing_field_text("tags"@))
    } else if content->Ok_0 is None {
        Err(missing_field_text("content"@))
    } else if sig->Ok_0 is None {
        Err(missing_field_text("sig"@))
    } else {
        Ok(
            NostrEventView {
                id: id->Ok_0->Some_0,
                pubkey: pubkey->Ok_0->Some_0,
                created_at: created_at->Ok_0->Some_0,
                kind: kind->Ok_0->Some_0,
                tags: tags->Ok_0->Some_0,
                content: content->Ok_0->Some_0,
                sig: sig->Ok_0->Some_0,
            },
        )
    }
}

/// The message for a list that ends before the element at position `at`.
pub open spec fn too_short_text(at: nat) -> Seq<char> {
    "invalid length "@ + decimal(at) + ", expected "@ + "struct NostrEvent with 7 elements"@
}

/// The message for a list of `len` elements, which is more than an event has.
pub open spec fn too_long_text(len: nat) -> Seq<char> {
    "invalid length "@ + decimal(len) + ", expected "@ + "fewer elements in array"@
}

/// The element at a position read as a text.
pub open spec fn text_item(items: Seq<JsonView>, at: nat) -> Result<Seq<char>, Seq<char>> {
    if at < items.len() {
        text_of(items[at as int])
    } else {
        Err(too_short_text(at))
    }
}

/// The element at a position read as a whole number from zero on.
pub open spec fn number_item(items: Seq<JsonView>, at: nat) -> Result<u64, Seq<char>> {
    if at < items.len() {
        number_of(items[at as int])
    } else {
        Err(too_short_text(at))
    }
}

/// The element at a position read as tags.
pub open spec fn tags_item(items: Seq<JsonView>, at: nat) -> Result<
    Seq<Seq<Seq<char>>>,
    Seq<char>,
> {
    if at < items.len() {
        tags_of(items[at as int])
    } else {
        Err(too_short_text(at))
    }
}

/// An array read as an event: the fields in their order, and nothing after
/// them. The first fault decides the error.
pub open spec fn event_of_array(items: Seq<JsonView>) -> Result<NostrEventView, Seq<char>> {
    let id = text_item(items, 0);
    let pubkey = text_item(items, 1);
    let created_at = number_item(items, 2);
    let kind = number_item(items, 3);
    let tags = tags_item(items, 4);
    let content = text_item(items, 5);
    let sig = text_item(items, 6);
    if id is Err {
        Err(id->Err_0)
    } else if pubkey is Err {
        Err(pubkey->Err_0)
    } else if created_at is Err {
        Err(created_at->Err_0)
    } else if kind is Err {
        Err(kind->Err_0)
    } else if tags is Err {
        Err(tags->Err_0)
    } else if content is Err {
        Err(content->Err_0)
    } else if sig is Err {
        Err(sig->Err_0)
    } else if items.len() > 7 {
        Err(too_long_text(items.len()))
    } else {
        Ok(
            NostrEventView {
                id: id->Ok_0,
                pubkey: pubkey->Ok_0,
                created_at: created_at->Ok_0,
                kind: kind->Ok_0,
                tags: tags->Ok_0,
                content: content->Ok_0,
                sig: sig->Ok_0,
            },
        )
    }
}

/// A document read as an event, or the message that says what is wrong with it.
pub open spec fn event_of(document: JsonView) -> Result<NostrEventView, Seq<char>> {
    match document {
        JsonView::Object(_) => event_of_object(document),
        JsonView::Array(items) => event_of_array(items),
        _ => Err(invalid_type_message(document, "struct NostrEvent"@)),
    }
}

/// Reads a document as a text.
fn read_text(json: &Json) -> (r: Result<String, String>)
    ensures
        match r {
            Ok(text) => text_of(json@) == Ok::<Seq<char>, Seq<char>>(text@),
            Err(message) => text_of(json@) == Err::<Seq<char>, Seq<char>>(message@),
        },
{
    match json {
        Json::Str(text) => Ok(text.clone()),
        _ => {
            proof {
                reveal_strlit("a string");
            }
            Err(invalid_type(json, "a string"))
        },
    }
}

/// Reads a document as a whole number from zero on.
fn read_number(json: &Json) -> (r: Result<u64, String>)
    ensures
        match r {
            Ok(value) => number_of(json@) == Ok::<u64, Seq<char>>(value),
            Err(message) => number_of(json@) == Err::<u64, Seq<char>>(message@),
        },
{
    match json {
        Json::Number(JsonNumber::Unsigned(value)) => Ok(*value),
        Json::Number(JsonNumber::Negative(value)) => {
            proof {
                reveal_strlit("u64");
            }
            Err(invalid_value(*value, "u64"))
        },
        _ => {
            proof {
                reveal_strlit("u64");
            }
            Err(invalid_type(json, "u64"))
        },
    }
}

/// An error among the first documents of a list is the error of the list.
proof fn lemma_texts_of_items_prefix(items: Seq<JsonView>, n: int)
    requires
        0 <= n <= items.len(),
        texts_of_items(items.take(n)) is Err,
    ensures
        texts_of_items(items) == texts_of_items(items.take(n)),
    decreases items.len() - n,
{
    if n < items.len() {
        assert(items.take(n + 1).drop_last() =~= items.take(n));
        lemma_texts_of_items_prefix(items, n + 1);
    } else {
        assert(items.take(n) =~= items);
    }
}

/// An error among the first documents of a list is the error of the list.
proof fn lemma_tags_of_items_prefix(items: Seq<JsonView>, n: int)
    requires
        0 <= n <= items.len(),
        tags_of_items(items.take(n)) is Err,
    ensures
        tags_of_items(items) == tags_of_items(items.take(n)),
    decreases items.len() - n,
{
    if n < items.len() {
        assert(items.take(n + 1).drop_last() =~= items.take(n));
        lemma_tags_of_items_prefix(items, n + 1);
    } else {
        assert(items.take(n) =~= items);
    }
}

/// Reads a document as a list of texts.
fn read_texts(json: &Json) -> (r: Result<Vec<String>, String>)
    ensures
        match r {
            Ok(texts) => texts_of(json@) == Ok::<Seq<Seq<char>>, Seq<char>>(texts.deep_view()),
            Err(message) => texts_of(json@) == Err::<Seq<Seq<char>>, Seq<char>>(message@),
        },
{
    match json {
        Json::Array(items) => {
            let ghost views = item_views(items@);
            let mut texts: Vec<String> = Vec::new();
            let mut i: usize = 0;
            assert(views.take(0) =~= Seq::empty());
            assert(texts.deep_view() =~= Seq::empty());
            while i < items.len()
                invariant
                    i <= items.len(),
                    views == item_views(items@),
                    json@ == JsonView::Array(views),
                    texts_of_items(views.take(i as int)) == Ok::<Seq<Seq<char>>, Seq<char>>(
                        texts.deep_view(),
                    ),
                decreases items.len() - i,
            {
                proof {
                    assert(views[i as int] == items@[i as int]@);
                    assert(views.take(i + 1).drop_last() =~= views.take(i as int));
                }
                match read_text(&items[i]) {
                    Ok(text) => {
                        let ghost before = texts.deep_view();
                        texts.push(text);
                        assert(texts.deep_view() =~= before.push(text@));
                    },
                    Err(message) => {
                        proof {
                            lemma_texts_of_items_prefix(views, i + 1);
                        }
                        return Err(message);
                    },
                }
                i = i + 1;
            }
            assert(views.take(i as int) =~= views);
            Ok(texts)
        },
        _ => {
            proof {
                reveal_strlit("a sequence");
            }
            Err(invalid_type(json, "a sequence"))
        },
    }
}

/// Reads a document as the tags of an event.
fn read_tags(json: &Json) -> (r: Result<Vec<Vec<String>>, String>)
    ensures
        match r {
            Ok(tags) => tags_of(json@) == Ok::<Seq<Seq<Seq<char>>>, Seq<char>>(tags.deep_view()),
            Err(message) => tags_of(json@) == Err::<Seq<Seq<Seq<char>>>, Seq<char>>(message@),
        },
{
    match json {
        Json::Array(items) => {
            let ghost views = item_views(items@);
            let mut tags: Vec<Vec<String>> = Vec::new();
            let mut i: usize = 0;
            assert(views.take(0) =~= Seq::empty());
            assert(tags.deep_view() =~= Seq::empty());
            while i < items.len()
                invariant
                    i <= items.len(),
                    views == item_views(items@),
                    json@ == JsonView::Array(views),
                    tags_of_items(views.take(i as int)) == Ok::<Seq<Seq<Seq<char>>>, Seq<char>>(
                        tags.deep_view(),
                    ),
                decreases items.len() - i,
            {
                proof {
                    assert(views[i as int] == items@[i as int]@);
                    assert(views.take(i + 1).drop_last() =~= views.take(i as int));
                }
                match read_texts(&items[i]) {
                    Ok(tag) => {
                        let ghost before = tags.deep_view();
                        tags.push(tag);
                        assert(tags.deep_view() =~= before.push(tag.deep_view()));
                    },
                    Err(message) => {
                        proof {
                            lemma_tags_of_items_prefix(views, i + 1);
                        }
                        return Err(message);
                    },
                }
                i = i + 1;
            }
            assert(views.take(i as int) =~= views);
            Ok(tags)
        },
        _ => {
            proof {
                reveal_strlit("a sequence");
            }
            Err(invalid_type(json, "a sequence"))
        },
    }
}

/// Reads the member of the given name as a text, where it is there.
fn read_text_member(json: &Json, name: &str) -> (r: Result<Option<String>, String>)
    ensures
        match r {
            Ok(Some(text)) => text_member(json@, name@) == Ok::<Option<Seq<char>>, Seq<char>>(
                Some(text@),
            ),
            Ok(None) => text_member(json@, name@) == Ok::<Option<Seq<char>>, Seq<char>>(None),
            Err(message) => text_member(json@, name@) == Err::<Option<Seq<char>>, Seq<char>>(message@),
        },
{
    match json.get(name) {
        Some(member) => match read_text(member) {
            Ok(text) => Ok(Some(text)),
            Err(message) => Err(message),
        },
        None => Ok(None),
    }
}

/// Reads the member of the given name as a whole number from zero on, where it is there.
fn read_number_member(json: &Json, name: &str) -> (r: Result<Option<u64>, String>)
    ensures
        match r {
            Ok(Some(value)) => number_member(json@, name@) == Ok::<Option<u64>, Seq<char>>(
                Some(value),
            ),
            Ok(None) => number_member(json@, name@) == Ok::<Option<u64>, Seq<char>>(None),
            Err(message) => number_member(json@, name@) == Err::<Option<u64>, Seq<char>>(message@),
        },
{
    match json.get(name) {
        Some(member) => match read_number(member) {
            Ok(value) => Ok(Some(value)),
            Err(message) => Err(message),
        },
        None => Ok(None),
    }
}

/// Reads the member of the given name as tags, where it is there.
fn read_tags_member(json: &Json, name: &str) -> (r: Result<Option<Vec<Vec<String>>>, String>)
    ensures
        match r {
            Ok(Some(tags)) => tags_member(json@, name@) == Ok::<Option<Seq<Seq<Seq<char>>>>, Seq<char>>(
                Some(tags.deep_view()),
            ),
            Ok(None) => tags_member(json@, name@) == Ok::<Option<Seq<Seq<Seq<char>>>>, Seq<char>>(None),
            Err(message) => tags_member(json@, name@) == Err::<Option<Seq<Seq<Seq<char>>>>, Seq<char>>(message@),
        },
{
    match json.get(name) {
        Some(member) => match read_tags(member) {
            Ok(tags) => Ok(Some(tags)),
            Err(message) => Err(message),
        },
        None => Ok(None),
    }
}

/// The message for a list that ends before the element at position `at`.
fn too_short(at: usize) -> (message: String)
    ensures
        message@ == too_short_text(at as nat),
{
    proof {
        reveal_strlit("struct NostrEvent with 7 elements");
    }
    invalid_length(at, "struct NostrEvent with 7 elements")
}

/// Reads the element at a position as a text.
fn read_text_item(items: &Vec<Json>, at: usize) -> (r: Result<String, String>)
    ensures
        match r {
            Ok(text) => text_item(item_views(items@), at as nat) == Ok::<Seq<char>, Seq<char>>(
                text@,
            ),
            Err(message) => text_item(item_views(items@), at as nat) == Err::<Seq<char>, Seq<char>>(
                message@,
            ),
        },
{
    if at < items.len() {
        assert(item_views(items@)[at as int] == items@[at as int]@);
        read_text(&items[at])
    } else {
        Err(too_short(at))
    }
}

/// Reads the element at a position as a whole number from zero on.
fn read_number_item(items: &Vec<Json>, at: usize) -> (r: Result<u64, String>)
    ensures
        match r {
            Ok(value) => number_item(item_views(items@), at as nat) == Ok::<u64, Seq<char>>(
                value,
            ),
            Err(message) => number_item(item_views(items@), at as nat) == Err::<u64, Seq<char>>(
                message@,
            ),
        },
{
    if at < items.len() {
        assert(item_views(items@)[at as int] == items@[at as int]@);
        read_number(&items[at])
    } else {
        Err(too_short(at))
    }
}

/// Reads the element at a position as tags.
fn read_tags_item(items: &Vec<Json>, at: usize) -> (r: Result<Vec<Vec<String>>, String>)
    ensures
        match r {
            Ok(tags) => tags_item(item_views(items@), at as nat) == Ok::<Seq<Seq<Seq<char>>>, Seq<char>>(
                tags.deep_view(),
            ),
            Err(message) => tags_item(item_views(items@), at as nat) == Err::<Seq<Seq<Seq<char>>>, Seq<char>>(
                message@,
            ),
        },
{
    if at < items.len() {
        assert(item_views(items@)[at as int] == items@[at as int]@);
        read_tags(&items[at])
    } else {
        Err(too_short(at))
    }
}

/// The message for a member that is not there.
fn missing_field(name: &str) -> (message: String)
    ensures
        message@ == missing_field_text(name@),
{
    "missing field `".to_owned().concat(name).concat("`")
}

/// Reads an object as an event.
fn read_event_object(json: &Json) -> (r: Result<NostrEvent, String>)
    ensures
        match r {
            Ok(event) => event_of_object(json@) == Ok::<NostrEventView, Seq<char>>(event@),
            Err(message) => event_of_object(json@) == Err::<NostrEventView, Seq<char>>(message@),
        },
{
    let content = match read_text_member(json, "content") {
        Ok(content) => content,
        Err(message) => return Err(message),
    };
    let created_at = match read_number_member(json, "created_at") {
        Ok(created_at) => created_at,
        Err(message) => return Err(message),
    };
    let id = match read_text_member(json, "id") {
        Ok(id) => id,
        Err(message) => return Err(message),
    };
    let kind = match read_number_member(json, "kind") {
        Ok(kind) => kind,
        Err(message) => return Err(message),
    };
    let pubkey = match read_text_member(json, "pubkey") {
        Ok(pubkey) => pubkey,
        Err(message) => return Err(message),
    };
    let sig = match read_text_member(json, "sig") {
        Ok(sig) => sig,
        Err(message) => return Err(message),
    };
    let tags = match read_tags_member(json, "tags") {
        Ok(tags) => tags,
        Err(message) => return Err(message),
    };
    let id = match id {
        Some(id) => id,
        None => return Err(missing_field("id")),
    };
    let pubkey = match pubkey {
        Some(pubkey) => pubkey,
        None => return Err(missing_field("pubkey")),
    };
    let created_at = match created_at {
        Some(created_at) => created_at,
        None => return Err(missing_field("created_at")),
    };
    let kind = match kind {
        Some(kind) => kind,
        None => return Err(missing_field("kind")),
    };
    let tags = match tags {
        Some(tags) => tags,
        None => return Err(missing_field("tags")),
    };
    let content = match content {
        Some(content) => content,
        None => return Err(missing_field("content")),
    };
    let sig = match sig {
        Some(sig) => sig,
        None => return Err(missing_field("sig")),
    };
    Ok(NostrEvent { id, pubkey, created_at, kind, tags, content, sig })
}

/// Reads an array as an event.
fn read_event_array(items: &Vec<Json>) -> (r: Result<NostrEvent, String>)
    ensures
        match r {
            Ok(event) => event_of_array(item_views(items@)) == Ok::<NostrEventView, Seq<char>>(
                event@,
            ),
            Err(message) => event_of_array(item_views(items@)) == Err::<NostrEventView, Seq<char>>(
                message@,
            ),
        },
{
    let id = match read_text_item(items, 0) {
        Ok(id) => id,
        Err(message) => return Err(message),
    };
    let pubkey = match read_text_item(items, 1) {
        Ok(pubkey) => pubkey,
        Err(message) => return Err(message),
    };
    let created_at = match read_number_item(items, 2) {
        Ok(created_at) => created_at,
        Err(message) => return Err(message),
    };
    let kind = match read_number_item(items, 3) {
        Ok(kind) => kind,
        Err(message) => return Err(message),
    };
    let tags = match read_tags_item(items, 4) {
        Ok(tags) => tags,
        Err(message) => return Err(message),
    };
    let content = match read_text_item(items, 5) {
        Ok(content) => content,
        Err(message) => return Err(message),
    };
    let sig = match read_text_item(items, 6) {
        Ok(sig) => sig,
        Err(message) => return Err(message),
    };
    if items.len() > 7 {
        proof {
            reveal_strlit("fewer elements in array");
        }
        return Err(invalid_length(items.len(), "fewer elements in array"));
    }
    Ok(NostrEvent { id, pubkey, created_at, kind, tags, content, sig })
}

impl NostrEvent {
    /// Reads a document as an event.
    ///
    /// An event is an object with a member for each field, whatever else is in
    /// it, or an array of the fields in their order. The error is the message
    /// that says what is wrong.
    pub fn from_document(json: &Json) -> (r: Result<NostrEvent, String>)
        ensures
            match r {
                Ok(event) => event_of(json@) == Ok::<NostrEventView, Seq<char>>(event@),
                Err(message) => event_of(json@) == Err::<NostrEventView, Seq<char>>(message@),
            },
    {
        match json {
            Json::Object(_) => read_event_object(json),
            Json::Array(items) => read_event_array(items),
            _ => {
            proof {
                reveal_strlit("struct NostrEvent");
            }
            Err(invalid_type(json, "struct NostrEvent"))
        },
        }
    }
}

// ---------------------------------------------------------------------------
// Laws
// ---------------------------------------------------------------------------

proof fn lemma_texts_round_trip(texts: Seq<Seq<char>>)
    ensures
        texts_of(texts_json(texts)) == Ok::<Seq<Seq<char>>, Seq<char>>(texts),
    decreases texts.len(),
{
    let items = texts_json(texts)->Array_0;
    if texts.len() > 0 {
        let shorter = texts.drop_last();
        lemma_texts_round_trip(shorter);
        assert(items.drop_last() =~= texts_json(shorter)->Array_0);
        assert(shorter.push(texts.last()) =~= texts);
    } else {
        assert(texts =~= Seq::empty());
    }
}

proof fn lemma_tags_round_trip(tags: Seq<Seq<Seq<char>>>)
    ensures
        tags_of(tags_json(tags)) == Ok::<Seq<Seq<Seq<char>>>, Seq<char>>(tags),
    decreases tags.len(),
{
    let items = tags_json(tags)->Array_0;
    if tags.len() > 0 {
        let shorter = tags.drop_last();
        lemma_tags_round_trip(shorter);
        lemma_texts_round_trip(tags.last());
        assert(items.drop_last() =~= tags_json(shorter)->Array_0);
        assert(shorter.push(tags.last()) =~= tags);
    } else {
        assert(tags =~= Seq::empty());
    }
}

/// The names of the fields of an event are different from one another.
proof fn lemma_field_names_differ()
    ensures
        "id"@ != "pubkey"@,
        "id"@ != "created_at"@,
        "id"@ != "kind"@,
        "id"@ != "tags"@,
        "id"@ != "content"@,
        "id"@ != "sig"@,
        "pubkey"@ != "created_at"@,
        "pubkey"@ != "kind"@,
        "pubkey"@ != "tags"@,
        "pubkey"@ != "content"@,
        "pubkey"@ != "sig"@,
        "created_at"@ != "kind"@,
        "created_at"@ != "tags"@,
        "created_at"@ != "content"@,
        "created_at"@ != "sig"@,
        "kind"@ != "tags"@,
        "kind"@ != "content"@,
        "kind"@ != "sig"@,
        "tags"@ != "content"@,
        "tags"@ != "sig"@,
        "content"@ != "sig"@,
{
    reveal_strlit("id");
    reveal_strlit("pubkey");
    reveal_strlit("created_at");
    reveal_strlit("kind");
    reveal_strlit("tags");
    reveal_strlit("content");
    reveal_strlit("sig");
    assert("id"@.len() == 2 && "pubkey"@.len() == 6 && "created_at"@.len() == 10);
    assert("kind"@.len() == 4 && "tags"@.len() == 4);
    assert("content"@.len() == 7 && "sig"@.len() == 3);
    assert("kind"@[0] != "tags"@[0]);
}

/// Reading the JSON form of an event gives the event back.
pub proof fn law_event_round_trip(event: NostrEventView)
    ensures
        event_of(event_json(event)) == Ok::<NostrEventView, Seq<char>>(event),
{
    lemma_field_names_differ();
    lemma_tags_round_trip(event.tags);
    let document = event_json(event);
    assert(document.get("id"@) == Some(JsonView::Str(event.id)));
    assert(document.get("pubkey"@) == Some(JsonView::Str(event.pubkey)));
    assert(document.get("created_at"@) == Some(number_json(event.created_at)));
    assert(document.get("kind"@) == Some(number_json(event.kind)));
    assert(document.get("tags"@) == Some(tags_json(event.tags)));
    assert(document.get("content"@) == Some(JsonView::Str(event.content)));
    assert(document.get("sig"@) == Some(JsonView::Str(event.sig)));
}

/// An event in memory stands for the event with the same fields.
pub proof fn law_event_content(event: NostrEvent)
    ensures
        event@.id == event.id@,
        event@.pubkey == event.pubkey@,
        event@.created_at == event.created_at,
        event@.kind == event.kind,
        event@.content == event.content@,
        event@.sig == event.sig@,
        event@.tags.len() == event.tags@.len(),
        forall|i: int|
            0 <= i < event.tags@.len() ==> (#[trigger] event@.tags[i]).len()
                == event.tags@[i]@.len(),
        forall|i: int, j: int|
            0 <= i < event.tags@.len() && 0 <= j < event.tags@[i]@.len()
                ==> #[trigger] event@.tags[i][j] == event.tags@[i]@[j]@,
{
}

/// A list of texts is written as the array of exactly these strings, in order.
pub proof fn law_texts_are_written(texts: Seq<Seq<char>>)
    ensures
        texts_json(texts) matches JsonView::Array(items) && items.len() == texts.len() && (forall|
            i: int,
        |
            0 <= i < texts.len() ==> #[trigger] items[i] == JsonView::Str(texts[i])),
{
}

/// Tags are written as the array of exactly these arrays of strings, in order.
pub proof fn law_tags_are_written(tags: Seq<Seq<Seq<char>>>)
    ensures
        tags_json(tags) matches JsonView::Array(items) && items.len() == tags.len() && (forall|
            i: int,
        |
            0 <= i < tags.len() ==> (#[trigger] items[i] matches JsonView::Array(texts)
                && texts.len() == tags[i].len() && (forall|j: int|
                0 <= j < tags[i].len() ==> #[trigger] texts[j] == JsonView::Str(tags[i][j])))),
{
}

/// An event is written as an object with its seven fields under their names and
/// nothing else.
pub proof fn law_event_fields_are_written(event: NostrEventView, name: Seq<char>)
    ensures
        event_json(event) matches JsonView::Object(members) && {
            &&& members.dom().contains(name) <==> (name == "id"@ || name == "pubkey"@ || name
                == "created_at"@ || name == "kind"@ || name == "tags"@ || name == "content"@
                || name == "sig"@)
            &&& members["id"@] == JsonView::Str(event.id)
            &&& members["pubkey"@] == JsonView::Str(event.pubkey)
            &&& members["created_at"@] == JsonView::Number(NumberView::Unsigned(event.created_at))
            &&& members["kind"@] == JsonView::Number(NumberView::Unsigned(event.kind))
            &&& members["tags"@] == tags_json(event.tags)
            &&& members["content"@] == JsonView::Str(event.content)
            &&& members["sig"@] == JsonView::Str(event.sig)
        },
{
    lemma_field_names_differ();
}

/// A document is read as a text exactly where it is that string.
pub proof fn law_strings_are_read(document: JsonView)
    ensures
        forall|text: Seq<char>|
            text_of(document) == Ok::<Seq<char>, Seq<char>>(text) <==> document == JsonView::Str(
                text,
            ),
        document !is Str ==> text_of(document) == Err::<Seq<char>, Seq<char>>(
            invalid_type_message(document, "a string"@),
        ),
{
}

/// A document is read as a number exactly where it is that whole number from
/// zero on. A whole number below zero is a wrong value; all else is of a wrong
/// type.
pub proof fn law_numbers_are_read(document: JsonView, below_zero: i64)
    ensures
        forall|value: u64|
            number_of(document) == Ok::<u64, Seq<char>>(value) <==> document == JsonView::Number(
                NumberView::Unsigned(value),
            ),
        number_of(JsonView::Number(NumberView::Negative(below_zero))) == Err::<u64, Seq<char>>(
            "invalid value: integer `"@ + signed_decimal(below_zero as int) + "`, expected "@
                + "u64"@,
        ),
        !(document matches JsonView::Number(NumberView::Unsigned(_))) && !(
        document matches JsonView::Number(NumberView::Negative(_))) ==> number_of(document)
            == Err::<u64, Seq<char>>(invalid_type_message(document, "u64"@)),
{
}

proof fn lemma_texts_read(items: Seq<JsonView>)
    ensures
        match texts_of_items(items) {
            Ok(texts) => texts.len() == items.len() && forall|i: int|
                0 <= i < items.len() ==> #[trigger] items[i] == JsonView::Str(texts[i]),
            Err(message) => exists|k: int|
                0 <= k < items.len() && (#[trigger] items[k]) !is Str && message
                    == invalid_type_message(items[k], "a string"@) && forall|i: int|
                    0 <= i < k ==> (#[trigger] items[i]) is Str,
        },
    decreases items.len(),
{
    if items.len() > 0 {
        let shorter = items.drop_last();
        lemma_texts_read(shorter);
        assert(forall|i: int| 0 <= i < shorter.len() ==> #[trigger] shorter[i] == items[i]);
        if texts_of_items(shorter) is Err {
            let k = choose|k: int|
                0 <= k < shorter.len() && (#[trigger] shorter[k]) !is Str && texts_of_items(
                    shorter,
                )->Err_0 == invalid_type_message(shorter[k], "a string"@) && forall|i: int|
                    0 <= i < k ==> (#[trigger] shorter[i]) is Str;
            assert(items[k] == shorter[k]);
            assert forall|i: int| 0 <= i < k implies (#[trigger] items[i]) is Str by {
                assert(shorter[i] == items[i]);
            }
        } else {
            let texts = texts_of_items(shorter)->Ok_0;
            if items.last() is Str {
                assert forall|i: int| 0 <= i < items.len() implies #[trigger] items[i]
                    == JsonView::Str(texts_of_items(items)->Ok_0[i]) by {
                    if i < shorter.len() {
                        assert(shorter[i] == JsonView::Str(texts[i]));
                    }
                }
            } else {
                let k = items.len() - 1;
                assert(items[k] == items.last());
                assert forall|i: int| 0 <= i < k implies (#[trigger] items[i]) is Str by {
                    assert(shorter[i] == JsonView::Str(texts[i]));
                }
            }
        }
    }
}

/// A document is read as a list of texts exactly where it is the array of these
/// strings, in order. The first item that is no string decides the error.
pub proof fn law_lists_of_strings_are_read(document: JsonView)
    ensures
        match (document, texts_of(document)) {
            (JsonView::Array(items), Ok(texts)) => texts.len() == items.len() && forall|i: int|
                0 <= i < items.len() ==> #[trigger] items[i] == JsonView::Str(texts[i]),
            (JsonView::Array(items), Err(message)) => exists|k: int|
                0 <= k < items.len() && (#[trigger] items[k]) !is Str && message
                    == invalid_type_message(items[k], "a string"@) && forall|i: int|
                    0 <= i < k ==> (#[trigger] items[i]) is Str,
            (_, Ok(_)) => false,
            (_, Err(message)) => message == invalid_type_message(document, "a sequence"@),
        },
{
    if let JsonView::Array(items) = document {
        lemma_texts_read(items);
    }
}

proof fn lemma_tags_read(items: Seq<JsonView>)
    ensures
        match tags_of_items(items) {
            Ok(tags) => tags.len() == items.len() && forall|i: int|
                0 <= i < items.len() ==> texts_of(#[trigger] items[i]) == Ok::<
                    Seq<Seq<char>>,
                    Seq<char>,
                >(tags[i]),
            Err(message) => exists|k: int|
                0 <= k < items.len() && texts_of(#[trigger] items[k]) == Err::<
                    Seq<Seq<char>>,
                    Seq<char>,
                >(message) && forall|i: int|
                    0 <= i < k ==> texts_of(#[trigger] items[i]) is Ok,
        },
    decreases items.len(),
{
    if items.len() > 0 {
        let shorter = items.drop_last();
        lemma_tags_read(shorter);
        assert(forall|i: int| 0 <= i < shorter.len() ==> #[trigger] shorter[i] == items[i]);
        if tags_of_items(shorter) is Err {
            let message = tags_of_items(shorter)->Err_0;
            let k = choose|k: int|
                0 <= k < shorter.len() && texts_of(#[trigger] shorter[k]) == Err::<
                    Seq<Seq<char>>,
                    Seq<char>,
                >(message) && forall|i: int|
                    0 <= i < k ==> texts_of(#[trigger] shorter[i]) is Ok;
            assert(items[k] == shorter[k]);
            assert forall|i: int| 0 <= i < k implies texts_of(#[trigger] items[i]) is Ok by {
                assert(shorter[i] == items[i]);
            }
        } else {
            let tags = tags_of_items(shorter)->Ok_0;
            let k = items.len() - 1;
            assert(items[k] == items.last());
            assert forall|i: int| 0 <= i < k implies texts_of(#[trigger] items[i]) == Ok::<
                Seq<Seq<char>>,
                Seq<char>,
            >(tags[i]) by {
                assert(shorter[i] == items[i]);
            }
        }
    }
}

/// A document is read as tags exactly where it is the array of these lists of
/// strings, in order. The first item that is no such list decides the error.
pub proof fn law_tags_are_read(document: JsonView)
    ensures
        match (document, tags_of(document)) {
            (JsonView::Array(items), Ok(tags)) => tags.len() == items.len() && forall|i: int|
                0 <= i < items.len() ==> texts_of(#[trigger] items[i]) == Ok::<
                    Seq<Seq<char>>,
                    Seq<char>,
                >(tags[i]),
            (JsonView::Array(items), Err(message)) => exists|k: int|
                0 <= k < items.len() && texts_of(#[trigger] items[k]) == Err::<
                    Seq<Seq<char>>,
                    Seq<char>,
                >(message) && forall|i: int|
                    0 <= i < k ==> texts_of(#[trigger] items[i]) is Ok,
            (_, Ok(_)) => false,
            (_, Err(message)) => message == invalid_type_message(document, "a sequence"@),
        },
{
    if let JsonView::Array(items) = document {
        lemma_tags_read(items);
    }
}

/// An object is read as an event exactly where it has the seven fields of that
/// event under their names. Other members do not matter.
pub proof fn law_objects_are_read_as_events(
    members: Map<Seq<char>, JsonView>,
    event: NostrEventView,
)
    ensures
        event_of(JsonView::Object(members)) == Ok::<NostrEventView, Seq<char>>(event) <==> {
            &&& members.dom().contains("id"@) && members["id"@] == JsonView::Str(event.id)
            &&& members.dom().contains("pubkey"@) && members["pubkey"@] == JsonView::Str(
                event.pubkey,
            )
            &&& members.dom().contains("created_at"@) && members["created_at"@]
                == JsonView::Number(NumberView::Unsigned(event.created_at))
            &&& members.dom().contains("kind"@) && members["kind"@] == JsonView::Number(
                NumberView::Unsigned(event.kind),
            )
            &&& members.dom().contains("tags"@) && tags_of(members["tags"@]) == Ok::<
                Seq<Seq<Seq<char>>>,
                Seq<char>,
            >(event.tags)
            &&& members.dom().contains("content"@) && members["content"@] == JsonView::Str(
                event.content,
            )
            &&& members.dom().contains("sig"@) && members["sig"@] == JsonView::Str(event.sig)
        },
{
    let document = JsonView::Object(members);
    law_objects_have_their_members(document, "id"@);
    law_objects_have_their_members(document, "pubkey"@);
    law_objects_have_their_members(document, "created_at"@);
    law_objects_have_their_members(document, "kind"@);
    law_objects_have_their_members(document, "tags"@);
    law_objects_have_their_members(document, "content"@);
    law_objects_have_their_members(document, "sig"@);
}

/// An array is read as an event exactly where it is the array of the seven
/// fields of that event, in their order.
pub proof fn law_arrays_are_read_as_events(items: Seq<JsonView>, event: NostrEventView)
    ensures
        event_of(JsonView::Array(items)) == Ok::<NostrEventView, Seq<char>>(event) <==> {
            &&& items.len() == 7
            &&& items[0] == JsonView::Str(event.id)
            &&& items[1] == JsonView::Str(event.pubkey)
            &&& items[2] == JsonView::Number(NumberView::Unsigned(event.created_at))
            &&& items[3] == JsonView::Number(NumberView::Unsigned(event.kind))
            &&& tags_of(items[4]) == Ok::<Seq<Seq<Seq<char>>>, Seq<char>>(event.tags)
            &&& items[5] == JsonView::Str(event.content)
            &&& items[6] == JsonView::Str(event.sig)
        },
{
}

/// Only objects and arrays are read as events.
pub proof fn law_other_documents_are_no_events(document: JsonView)
    requires
        document !is Object,
        document !is Array,
    ensures
        event_of(document) == Err::<NostrEventView, Seq<char>>(
            invalid_type_message(document, "struct NostrEvent"@),
        ),
{
}

/// What is wrong with a document as the field of the given name, where
/// something is.
pub open spec fn field_fault(name: Seq<char>, document: JsonView) -> Option<Seq<char>> {
    if name == "created_at"@ || name == "kind"@ {
        match number_of(document) {
            Ok(_) => None,
            Err(message) => Some(message),
        }
    } else if name == "tags"@ {
        match tags_of(document) {
            Ok(_) => None,
            Err(message) => Some(message),
        }
    } else {
        match text_of(document) {
            Ok(_) => None,
            Err(message) => Some(message),
        }
    }
}

/// What is wrong with the member of the given name, where there is one and
/// something is.
pub open spec fn member_fault(members: Map<Seq<char>, JsonView>, name: Seq<char>) -> Option<
    Seq<char>,
> {
    if members.dom().contains(name) {
        field_fault(name, members[name])
    } else {
        None
    }
}

/// The names of the fields of an event in alphabetical order.
pub open spec fn sorted_names() -> Seq<Seq<char>> {
    seq!["content"@, "created_at"@, "id"@, "kind"@, "pubkey"@, "sig"@, "tags"@]
}

/// The names of the fields of an event in the order of the fields.
pub open spec fn field_names() -> Seq<Seq<char>> {
    seq!["id"@, "pubkey"@, "created_at"@, "kind"@, "tags"@, "content"@, "sig"@]
}

/// The first member with a fault, in alphabetical order, decides the error of
/// an object.
pub proof fn law_first_faulty_member_decides(
    members: Map<Seq<char>, JsonView>,
    at: int,
    message: Seq<char>,
)
    requires
        0 <= at < 7,
        member_fault(members, sorted_names()[at]) == Some(message),
        forall|i: int| 0 <= i < at ==> member_fault(members, #[trigger] sorted_names()[i]) is None,
    ensures
        event_of(JsonView::Object(members)) == Err::<NostrEventView, Seq<char>>(message),
{
    lemma_field_names_differ();
    let names = sorted_names();
    assert(names[0] == "content"@ && names[1] == "created_at"@ && names[2] == "id"@ && names[3]
        == "kind"@ && names[4] == "pubkey"@ && names[5] == "sig"@ && names[6] == "tags"@);
    assert(forall|i: int| 0 <= i < at ==> member_fault(members, #[trigger] names[i]) is None);
}

/// Where no member has a fault, the first field that is missing, in the order
/// of the fields, decides the error of an object.
pub proof fn law_first_missing_field_decides(members: Map<Seq<char>, JsonView>, at: int)
    requires
        0 <= at < 7,
        forall|i: int| 0 <= i < 7 ==> member_fault(members, #[trigger] sorted_names()[i]) is None,
        !members.dom().contains(field_names()[at]),
        forall|i: int| 0 <= i < at ==> members.dom().contains(#[trigger] field_names()[i]),
    ensures
        event_of(JsonView::Object(members)) == Err::<NostrEventView, Seq<char>>(
            "missing field `"@ + field_names()[at] + "`"@,
        ),
{
    lemma_field_names_differ();
    let sorted = sorted_names();
    let names = field_names();
    assert(sorted[0] == "content"@ && sorted[1] == "created_at"@ && sorted[2] == "id"@
        && sorted[3] == "kind"@ && sorted[4] == "pubkey"@ && sorted[5] == "sig"@ && sorted[6]
        == "tags"@);
    assert(names[0] == "id"@ && names[1] == "pubkey"@ && names[2] == "created_at"@ && names[3]
        == "kind"@ && names[4] == "tags"@ && names[5] == "content"@ && names[6] == "sig"@);
    assert(forall|i: int| 0 <= i < 7 ==> member_fault(members, #[trigger] sorted[i]) is None);
    assert(forall|i: int| 0 <= i < at ==> members.dom().contains(#[trigger] names[i]));
}

/// The first field of an array that has a fault or is missing decides its error.
pub proof fn law_first_faulty_item_decides(items: Seq<JsonView>, at: int)
    requires
        0 <= at < 7,
        at < items.len() ==> field_fault(field_names()[at], items[at]) is Some,
        forall|i: int|
            0 <= i < at ==> i < items.len() && field_fault(#[trigger] field_names()[i], items[i]) is None,
    ensures
        event_of(JsonView::Array(items)) == Err::<NostrEventView, Seq<char>>(
            if at < items.len() {
                field_fault(field_names()[at], items[at])->Some_0
            } else {
                "invalid length "@ + decimal(at as nat) + ", expected "@
                    + "struct NostrEvent with 7 elements"@
            },
        ),
{
    lemma_field_names_differ();
    let names = field_names();
    assert(names[0] == "id"@ && names[1] == "pubkey"@ && names[2] == "created_at"@ && names[3]
        == "kind"@ && names[4] == "tags"@ && names[5] == "content"@ && names[6] == "sig"@);
    assert(forall|i: int|
        0 <= i < at ==> i < items.len() && field_fault(#[trigger] names[i], items[i]) is None);
}

/// An array of more than the fields of an event is too long.
pub proof fn law_long_array_is_no_event(items: Seq<JsonView>)
    requires
        items.len() > 7,
        forall|i: int| 0 <= i < 7 ==> field_fault(#[trigger] field_names()[i], items[i]) is None,
    ensures
        event_of(JsonView::Array(items)) == Err::<NostrEventView, Seq<char>>(
            "invalid length "@ + decimal(items.len()) + ", expected "@
                + "fewer elements in array"@,
        ),
{
    lemma_field_names_differ();
    let names = field_names();
    assert(names[0] == "id"@ && names[1] == "pubkey"@ && names[2] == "created_at"@ && names[3]
        == "kind"@ && names[4] == "tags"@ && names[5] == "content"@ && names[6] == "sig"@);
    assert(forall|i: int| 0 <= i < 7 ==> field_fault(#[trigger] names[i], items[i]) is None);
}

} // verus!
