//! Subscription filters and their JSON form.

use vstd::prelude::*;

use crate::event::{number_json, texts_json, texts_to_json};
use crate::json::{all_writable, distinct_names, entry_views, item_views, members_of};
use crate::json::{lemma_members_absent, lemma_members_finite, lemma_members_of};
use crate::json::{lemma_members_update, position_of, set_member};
use crate::json::{Json, JsonNumber, JsonView, NumberView};

verus! {

/// Tag filters by name, such as the wanted values of `#e` or `#p`. Each name
/// has one list of values.
#[derive(Debug)]
pub struct TagFilters {
    entries: Vec<(String, Vec<String>)>,
}

/// The views of a list of named lists of texts.
pub open spec fn tag_entry_views(entries: Seq<(String, Vec<String>)>) -> Seq<
    (Seq<char>, Seq<Seq<char>>),
> {
    Seq::new(entries.len(), |i: int| (entries[i].0@, entries[i].1.deep_view()))
}

impl View for TagFilters {
    type V = Map<Seq<char>, Seq<Seq<char>>>;

    closed spec fn view(&self) -> Map<Seq<char>, Seq<Seq<char>>> {
        members_of(tag_entry_views(self.entries@))
    }
}

impl TagFilters {
    /// No name occurs twice.
    #[verifier::type_invariant]
    spec fn wf(&self) -> bool {
        distinct_names(self.entries@)
    }

    /// There are finitely many tag filters.
    pub proof fn lemma_finite(&self)
        ensures
            self@.dom().finite(),
    {
        lemma_members_finite(tag_entry_views(self.entries@));
    }

    /// No tag filters.
    pub fn new() -> (r: Self)
        ensures
            r@ == Map::<Seq<char>, Seq<Seq<char>>>::empty(),
    {
        TagFilters { entries: Vec::new() }
    }

    /// The position of the last entry under a name.
    fn position(&self, name: &str) -> (at: Option<usize>)
        ensures
            match at {
                Some(at) => {
                    &&& at < self.entries@.len()
                    &&& self.entries@[at as int].0@ == name@
                    &&& self@.dom().contains(name@)
                    &&& self@[name@] == self.entries@[at as int].1.deep_view()
                    &&& forall|j: int|
                        at < j < self.entries@.len() ==> (#[trigger] self.entries@[j]).0@ != name@
                },
                None => {
                    &&& !self@.dom().contains(name@)
                    &&& forall|j: int|
                        0 <= j < self.entries@.len() ==> (#[trigger] self.entries@[j]).0@ != name@
                },
            },
    {
        let ghost views = tag_entry_views(self.entries@);
        let at = position_of(&self.entries, name);
        proof {
            match at {
                Some(at) => lemma_members_of(views, at as int),
                None => lemma_members_absent(views, name@),
            }
        }
        at
    }

    /// The values under a name.
    pub fn get(&self, name: &str) -> (values: Option<&Vec<String>>)
        ensures
            match values {
                Some(values) => self@.dom().contains(name@) && self@[name@] == values.deep_view(),
                None => !self@.dom().contains(name@),
            },
    {
        match self.position(name) {
            Some(at) => Some(&self.entries[at].1),
            None => None,
        }
    }

    /// All names with their values.
    pub fn into_entries(self) -> (entries: Vec<(String, Vec<String>)>)
        ensures
            members_of(tag_entry_views(entries@)) == self@,
            distinct_names(entries@),
    {
        proof {
            use_type_invariant(&self);
        }
        self.entries
    }

    /// Sets the values under a name, in place of those that were there.
    pub fn insert(&mut self, name: String, values: Vec<String>)
        ensures
            final(self)@ == old(self)@.insert(name@, values.deep_view()),
    {
        proof {
            use_type_invariant(&*self);
        }
        let ghost before = tag_entry_views(self.entries@);
        let at = self.position(name.as_str());
        let mut entries: Vec<(String, Vec<String>)> = Vec::new();
        std::mem::swap(&mut entries, &mut self.entries);
        match at {
            Some(at) => {
                entries.set(at, (name, values));
                proof {
                    let after = tag_entry_views(entries@);
                    assert(after =~= before.update(at as int, (name@, values.deep_view())));
                    lemma_members_update(before, at as int, values.deep_view());
                }
            },
            None => {
                entries.push((name, values));
                proof {
                    let after = tag_entry_views(entries@);
                    assert(after =~= before.push((name@, values.deep_view())));
                    assert(after.drop_last() =~= before);
                }
            },
        }
        self.entries = entries;
    }
}

impl Clone for TagFilters {
    fn clone(&self) -> (r: Self)
        ensures
            r@ == self@,
    {
        proof {
            use_type_invariant(self);
        }
        let mut entries: Vec<(String, Vec<String>)> = Vec::new();
        let mut i: usize = 0;
        while i < self.entries.len()
            invariant
                i <= self.entries.len(),
                entries@.len() == i,
                forall|j: int|
                    0 <= j < i ==> (#[trigger] entries@[j]).0@ == self.entries@[j].0@
                        && entries@[j].1.deep_view() == self.entries@[j].1.deep_view(),
            decreases self.entries.len() - i,
        {
            let values = self.entries[i].1.clone();
            assert(values.deep_view() =~= self.entries@[i as int].1.deep_view());
            entries.push((self.entries[i].0.clone(), values));
            i = i + 1;
        }
        proof {
            assert(tag_entry_views(entries@) =~= tag_entry_views(self.entries@));
            assert forall|j: int, k: int| 0 <= j < k < entries@.len() implies (
            #[trigger] entries@[j]).0@ != (#[trigger] entries@[k]).0@ by {
                assert(self.entries@[j].0@ != self.entries@[k].0@);
            }
        }
        TagFilters { entries }
    }
}

impl Default for TagFilters {
    fn default() -> (r: Self)
        ensures
            r@ == Map::<Seq<char>, Seq<Seq<char>>>::empty(),
    {
        TagFilters::new()
    }
}

/// A NIP-01 subscription filter.
#[derive(Debug)]
pub struct Filter {
    pub ids: Option<Vec<String>>,
    pub authors: Option<Vec<String>>,
    pub kinds: Option<Vec<u64>>,
    pub since: Option<u64>,
    pub until: Option<u64>,
    pub limit: Option<u64>,
    /// Catch-all for `#e`, `#p`, etc. tag filters.
    pub tags: TagFilters,
}

/// The mathematical value of a [`Filter`].
#[verifier::ext_equal]
pub struct FilterView {
    pub ids: Option<Seq<Seq<char>>>,
    pub authors: Option<Seq<Seq<char>>>,
    pub kinds: Option<Seq<u64>>,
    pub since: Option<u64>,
    pub until: Option<u64>,
    pub limit: Option<u64>,
    pub tags: Map<Seq<char>, Seq<Seq<char>>>,
}

impl View for Filter {
    type V = FilterView;

    open spec fn view(&self) -> FilterView {
        FilterView {
            ids: self.ids.deep_view(),
            authors: self.authors.deep_view(),
            kinds: self.kinds.deep_view(),
            since: self.since,
            until: self.until,
            limit: self.limit,
            tags: self.tags@,
        }
    }
}

/// The views of a list of filters.
pub open spec fn filter_views(filters: Seq<Filter>) -> Seq<FilterView> {
    Seq::new(filters.len(), |i: int| filters[i]@)
}

impl Default for Filter {
    /// A filter without any condition.
    fn default() -> (r: Self)
        ensures
            r@ == (FilterView {
                ids: None,
                authors: None,
                kinds: None,
                since: None,
                until: None,
                limit: None,
                tags: Map::empty(),
            }),
    {
        Filter {
            ids: None,
            authors: None,
            kinds: None,
            since: None,
            until: None,
            limit: None,
            tags: TagFilters::new(),
        }
    }
}

fn clone_texts(texts: &Option<Vec<String>>) -> (r: Option<Vec<String>>)
    ensures
        r.deep_view() == texts.deep_view(),
{
    match texts {
        Some(texts) => {
            let copy = texts.clone();
            assert(copy.deep_view() =~= texts.deep_view());
            Some(copy)
        },
        None => None,
    }
}

impl Clone for Filter {
    fn clone(&self) -> (r: Self)
        ensures
            r@ == self@,
    {
        let kinds = match &self.kinds {
            Some(kinds) => {
                let copy = kinds.clone();
                assert(copy.deep_view() =~= kinds.deep_view());
                Some(copy)
            },
            None => None,
        };
        Filter {
            ids: clone_texts(&self.ids),
            authors: clone_texts(&self.authors),
            kinds,
            since: self.since,
            until: self.until,
            limit: self.limit,
            tags: self.tags.clone(),
        }
    }
}

/// A copy of a list of filters.
pub(crate) fn clone_filters(filters: &Vec<Filter>) -> (r: Vec<Filter>)
    ensures
        filter_views(r@) == filter_views(filters@),
{
    let mut copy: Vec<Filter> = Vec::new();
    let mut i: usize = 0;
    while i < filters.len()
        invariant
            i <= filters.len(),
            copy@.len() == i,
            forall|j: int| 0 <= j < i ==> (#[trigger] copy@[j])@ == filters@[j]@,
        decreases filters.len() - i,
    {
        copy.push(filters[i].clone());
        i = i + 1;
    }
    assert(filter_views(copy@) =~= filter_views(filters@));
    copy
}

// ---------------------------------------------------------------------------
// The JSON form of a filter
// ---------------------------------------------------------------------------

/// A list of whole numbers from zero on as a JSON array of numbers.
pub open spec fn numbers_json(numbers: Seq<u64>) -> JsonView {
    JsonView::Array(Seq::new(numbers.len(), |i: int| number_json(numbers[i])))
}

/// The members with one more, where there is a value for it.
pub open spec fn with_member(
    members: Map<Seq<char>, JsonView>,
    name: Seq<char>,
    value: Option<JsonView>,
) -> Map<Seq<char>, JsonView> {
    match value {
        Some(value) => members.insert(name, value),
        None => members,
    }
}

/// A list of texts as JSON, where there is one.
pub open spec fn optional_texts_json(texts: Option<Seq<Seq<char>>>) -> Option<JsonView> {
    match texts {
        Some(texts) => Some(texts_json(texts)),
        None => None,
    }
}

/// A list of numbers as JSON, where there is one.
pub open spec fn optional_numbers_json(numbers: Option<Seq<u64>>) -> Option<JsonView> {
    match numbers {
        Some(numbers) => Some(numbers_json(numbers)),
        None => None,
    }
}

/// A number as JSON, where there is one.
pub open spec fn optional_number_json(value: Option<u64>) -> Option<JsonView> {
    match value {
        Some(value) => Some(number_json(value)),
        None => None,
    }
}

/// The members that stand for the named conditions of a filter; a condition
/// that is not set has none.
pub open spec fn condition_members(filter: FilterView) -> Map<Seq<char>, JsonView> {
    let members = Map::empty();
    let members = with_member(members, "ids"@, optional_texts_json(filter.ids));
    let members = with_member(members, "authors"@, optional_texts_json(filter.authors));
    let members = with_member(members, "kinds"@, optional_numbers_json(filter.kinds));
    let members = with_member(members, "since"@, optional_number_json(filter.since));
    let members = with_member(members, "until"@, optional_number_json(filter.until));
    with_member(members, "limit"@, optional_number_json(filter.limit))
}

/// A filter as a JSON object: a member for each condition that is set, and the
/// tag filters beside them. A tag filter that has the name of a condition takes
/// its place.
pub open spec fn filter_json(filter: FilterView) -> JsonView {
    JsonView::Object(
        condition_members(filter).union_prefer_right(
            filter.tags.map_values(|values: Seq<Seq<char>>| texts_json(values)),
        ),
    )
}

/// Builds a JSON array of numbers.
fn numbers_to_json(numbers: &Vec<u64>) -> (json: Json)
    ensures
        json@ == numbers_json(numbers.deep_view()),
        json.writable(),
{
    let mut items: Vec<Json> = Vec::new();
    let mut i: usize = 0;
    while i < numbers.len()
        invariant
            i <= numbers.len(),
            items@.len() == i,
            forall|j: int|
                0 <= j < i ==> #[trigger] items@[j] == Json::Number(
                    JsonNumber::Unsigned(numbers@[j]),
                ),
        decreases numbers.len() - i,
    {
        items.push(Json::Number(JsonNumber::Unsigned(numbers[i])));
        i = i + 1;
    }
    proof {
        assert(item_views(items@) =~= numbers_json(numbers.deep_view())->Array_0);
        reveal_with_fuel(Json::writable, 2);
    }
    Json::Array(items)
}

/// Adds a list of texts under a name, where there is one.
fn push_texts(entries: &mut Vec<(String, Json)>, name: &str, texts: &Option<Vec<String>>)
    requires
        all_writable(old(entries)@),
    ensures
        all_writable(final(entries)@),
        members_of(entry_views(final(entries)@)) == with_member(
            members_of(entry_views(old(entries)@)),
            name@,
            optional_texts_json(texts.deep_view()),
        ),
{
    match texts {
        Some(texts) => set_member(entries, name, texts_to_json(texts)),
        None => {},
    }
}

/// Adds a number under a name, where there is one.
fn push_number(entries: &mut Vec<(String, Json)>, name: &str, value: Option<u64>)
    requires
        all_writable(old(entries)@),
    ensures
        all_writable(final(entries)@),
        members_of(entry_views(final(entries)@)) == with_member(
            members_of(entry_views(old(entries)@)),
            name@,
            optional_number_json(value),
        ),
{
    match value {
        Some(value) => set_member(entries, name, Json::Number(JsonNumber::Unsigned(value))),
        None => {},
    }
}

impl Filter {
    /// The filter as a JSON object.
    pub fn to_document(&self) -> (json: Json)
        ensures
            json@ == filter_json(self@),
            json.writable(),
    {
        let mut entries: Vec<(String, Json)> = Vec::new();
        assert(entry_views(entries@) =~= Seq::empty());
        push_texts(&mut entries, "ids", &self.ids);
        push_texts(&mut entries, "authors", &self.authors);
        match &self.kinds {
            Some(kinds) => set_member(&mut entries, "kinds", numbers_to_json(kinds)),
            None => {},
        }
        push_number(&mut entries, "since", self.since);
        push_number(&mut entries, "until", self.until);
        push_number(&mut entries, "limit", self.limit);
        let ghost conditions = condition_members(self@);
        assert(members_of(entry_views(entries@)) == conditions);
        let tags = &self.tags.entries;
        let ghost views = tag_entry_views(tags@);
        let ghost to_json = |values: Seq<Seq<char>>| texts_json(values);
        let mut i: usize = 0;
        assert(views.take(0) =~= Seq::empty());
        assert(conditions.union_prefer_right(members_of(views.take(0)).map_values(to_json))
            =~= conditions);
        while i < tags.len()
            invariant
                i <= tags.len(),
                views == tag_entry_views(tags@),
                to_json == |values: Seq<Seq<char>>| texts_json(values),
                all_writable(entries@),
                members_of(entry_views(entries@)) == conditions.union_prefer_right(
                    members_of(views.take(i as int)).map_values(to_json),
                ),
            decreases tags.len() - i,
        {
            let ghost so_far = members_of(views.take(i as int));
            set_member(&mut entries, tags[i].0.as_str(), texts_to_json(&tags[i].1));
            proof {
                let name = tags@[i as int].0@;
                let values = tags@[i as int].1.deep_view();
                assert(views.take(i + 1).drop_last() =~= views.take(i as int));
                assert(members_of(views.take(i + 1)) == so_far.insert(name, values));
                assert(conditions.union_prefer_right(so_far.map_values(to_json)).insert(
                    name,
                    texts_json(values),
                ) =~= conditions.union_prefer_right(
                    so_far.insert(name, values).map_values(to_json),
                ));
            }
            i = i + 1;
        }
        assert(views.take(i as int) =~= views);
        Json::Object(entries)
    }
}

// ---------------------------------------------------------------------------
// Laws
// ---------------------------------------------------------------------------

/// The names of the conditions of a filter are different from one another.
proof fn lemma_condition_names_differ()
    ensures
        "ids"@ != "authors"@,
        "ids"@ != "kinds"@,
        "ids"@ != "since"@,
        "ids"@ != "until"@,
        "ids"@ != "limit"@,
        "authors"@ != "kinds"@,
        "authors"@ != "since"@,
        "authors"@ != "until"@,
        "authors"@ != "limit"@,
        "kinds"@ != "since"@,
        "kinds"@ != "until"@,
        "kinds"@ != "limit"@,
        "since"@ != "until"@,
        "since"@ != "limit"@,
        "until"@ != "limit"@,
{
    reveal_strlit("ids");
    reveal_strlit("authors");
    reveal_strlit("kinds");
    reveal_strlit("since");
    reveal_strlit("until");
    reveal_strlit("limit");
    assert("ids"@.len() == 3 && "authors"@.len() == 7);
    assert("kinds"@.len() == 5 && "since"@.len() == 5);
    assert("until"@.len() == 5 && "limit"@.len() == 5);
    assert("kinds"@[0] == 'k' && "since"@[0] == 's' && "until"@[0] == 'u' && "limit"@[0] == 'l');
}

/// A condition that is set is written under its name, and one that is not set
/// is left out, unless a tag filter has taken the name.
pub proof fn law_conditions_are_written(filter: FilterView)
    ensures
        !filter.tags.dom().contains("ids"@) ==> filter_json(filter).get("ids"@)
            == optional_texts_json(filter.ids),
        !filter.tags.dom().contains("authors"@) ==> filter_json(filter).get("authors"@)
            == optional_texts_json(filter.authors),
        !filter.tags.dom().contains("kinds"@) ==> filter_json(filter).get("kinds"@)
            == optional_numbers_json(filter.kinds),
        !filter.tags.dom().contains("since"@) ==> filter_json(filter).get("since"@)
            == optional_number_json(filter.since),
        !filter.tags.dom().contains("until"@) ==> filter_json(filter).get("until"@)
            == optional_number_json(filter.until),
        !filter.tags.dom().contains("limit"@) ==> filter_json(filter).get("limit"@)
            == optional_number_json(filter.limit),
{
    lemma_condition_names_differ();
}

/// Every tag filter is written under its name.
pub proof fn law_tag_filters_are_written(filter: FilterView, name: Seq<char>)
    requires
        filter.tags.dom().contains(name),
    ensures
        filter_json(filter).get(name) == Some(texts_json(filter.tags[name])),
{
}

/// A filter without conditions and without tag filters is the empty object.
pub proof fn law_empty_filter_is_empty_object()
    ensures
        filter_json(
            FilterView {
                ids: None,
                authors: None,
                kinds: None,
                since: None,
                until: None,
                limit: None,
                tags: Map::empty(),
            },
        ) == JsonView::Object(Map::empty()),
{
    let to_json = |values: Seq<Seq<char>>| texts_json(values);
    assert(Map::<Seq<char>, JsonView>::empty().union_prefer_right(
        Map::<Seq<char>, Seq<Seq<char>>>::empty().map_values(to_json),
    ) =~= Map::empty());
}

/// A filter in memory stands for the filter with the same conditions.
pub proof fn law_filter_content(filter: Filter)
    ensures
        filter@.ids == filter.ids.deep_view(),
        filter@.authors == filter.authors.deep_view(),
        filter@.kinds == filter.kinds.deep_view(),
        filter@.since == filter.since,
        filter@.until == filter.until,
        filter@.limit == filter.limit,
        filter@.tags == filter.tags@,
{
}

/// The filters of a list stand for themselves, in their order.
pub proof fn law_filter_list_content(filters: Seq<Filter>)
    ensures
        filter_views(filters).len() == filters.len(),
        forall|i: int| 0 <= i < filters.len() ==> #[trigger] filter_views(filters)[i] == filters[i]@,
{
}

/// The entries of a list of tag filters stand for themselves, in their order.
pub proof fn law_tag_entry_content(entries: Seq<(String, Vec<String>)>)
    ensures
        tag_entry_views(entries).len() == entries.len(),
        forall|i: int|
            0 <= i < entries.len() ==> #[trigger] tag_entry_views(entries)[i] == (
                entries[i].0@,
                entries[i].1.deep_view(),
            ),
{
}

/// A filter has a member for each condition that is set and for each tag filter,
/// and no other.
pub proof fn law_filter_has_no_other_members(filter: FilterView, name: Seq<char>)
    ensures
        filter_json(filter) matches JsonView::Object(members) && (members.dom().contains(name)
            <==> filter.tags.dom().contains(name) || (name == "ids"@ && filter.ids is Some) || (name
            == "authors"@ && filter.authors is Some) || (name == "kinds"@ && filter.kinds is Some)
            || (name == "since"@ && filter.since is Some) || (name == "until"@
            && filter.until is Some) || (name == "limit"@ && filter.limit is Some)),
{
    lemma_condition_names_differ();
}

/// The numbers that a filter asks for are written as they are, whatever they
/// are.
pub proof fn law_number_conditions_are_written(filter: FilterView, n: u64)
    ensures
        filter_json(filter) matches JsonView::Object(members) && {
            &&& filter.since == Some(n) && !filter.tags.dom().contains("since"@)
                ==> members["since"@] == JsonView::Number(NumberView::Unsigned(n))
            &&& filter.until == Some(n) && !filter.tags.dom().contains("until"@)
                ==> members["until"@] == JsonView::Number(NumberView::Unsigned(n))
            &&& filter.limit == Some(n) && !filter.tags.dom().contains("limit"@)
                ==> members["limit"@] == JsonView::Number(NumberView::Unsigned(n))
        },
{
    lemma_condition_names_differ();
}

/// The lists that a filter asks for are written as the arrays of exactly their
/// elements, in order.
pub proof fn law_list_conditions_are_written(
    filter: FilterView,
    texts: Seq<Seq<char>>,
    numbers: Seq<u64>,
)
    ensures
        filter_json(filter) matches JsonView::Object(members) && {
            &&& filter.ids == Some(texts) && !filter.tags.dom().contains("ids"@) ==> (
            members["ids"@] matches JsonView::Array(items) && items.len() == texts.len() && (forall|
                i: int,
            |
                0 <= i < texts.len() ==> #[trigger] items[i] == JsonView::Str(texts[i])))
            &&& filter.authors == Some(texts) && !filter.tags.dom().contains("authors"@) ==> (
            members["authors"@] matches JsonView::Array(items) && items.len() == texts.len() && (
            forall|i: int|
                0 <= i < texts.len() ==> #[trigger] items[i] == JsonView::Str(texts[i])))
            &&& filter.kinds == Some(numbers) && !filter.tags.dom().contains("kinds"@) ==> (
            members["kinds"@] matches JsonView::Array(items) && items.len() == numbers.len() && (
            forall|i: int|
                0 <= i < numbers.len() ==> #[trigger] items[i] == JsonView::Number(
                    NumberView::Unsigned(numbers[i]),
                )))
        },
{
    lemma_condition_names_differ();
}

/// A tag filter is written under its name as the array of exactly its values,
/// in order, also where a condition has that name.
pub proof fn law_tag_values_are_written(filter: FilterView, name: Seq<char>)
    requires
        filter.tags.dom().contains(name),
    ensures
        filter_json(filter) matches JsonView::Object(members) && members.dom().contains(name) && (
        members[name] matches JsonView::Array(items) && items.len() == filter.tags[name].len() && (
        forall|i: int|
            0 <= i < items.len() ==> #[trigger] items[i] == JsonView::Str(filter.tags[name][i]))),
{
}

} // verus!
