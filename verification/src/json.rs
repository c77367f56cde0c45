//! JSON values as the wire format sees them, and their text form.

use vstd::prelude::*;
use serde_json::Value;

verus! {

/// A JSON value.
#[derive(Debug)]
pub enum Json {
    Null,
    Bool(bool),
    /// A number; `None` where it is negative, fractional or beyond 64 bits.
    Number(Option<u64>),
    Str(String),
    Array(Vec<Json>),
    /// The members of an object, each with its name. Where a name occurs
    /// more than once, the last member of that name counts.
    Object(Vec<(String, Json)>),
}

/// Mathematical model of a [`Json`]: an object is a map from names to values.
pub enum JsonView {
    Null,
    Bool(bool),
    Number(Option<u64>),
    Str(Seq<char>),
    Array(Seq<JsonView>),
    Object(Map<Seq<char>, JsonView>),
}

/// The map that a list of named values stands for: a later entry replaces an
/// earlier one of the same name.
pub open spec fn pairs_map(pairs: Seq<(Seq<char>, JsonView)>) -> Map<Seq<char>, JsonView>
    decreases pairs.len(),
{
    if pairs.len() == 0 {
        Map::empty()
    } else {
        pairs_map(pairs.drop_last()).insert(pairs.last().0, pairs.last().1)
    }
}

impl View for Json {
    type V = JsonView;

    open spec fn view(&self) -> JsonView
        decreases self,
    {
        match self {
            Json::Null => JsonView::Null,
            Json::Bool(b) => JsonView::Bool(*b),
            Json::Number(n) => JsonView::Number(*n),
            Json::Str(s) => JsonView::Str(s@),
            Json::Array(items) => JsonView::Array(
                Seq::new(
                    items@.len(),
                    |i: int|
                        if 0 <= i < items@.len() {
                            items@[i].view()
                        } else {
                            JsonView::Null
                        },
                ),
            ),
            Json::Object(members) => JsonView::Object(
                pairs_map(
                    Seq::new(
                        members@.len(),
                        |i: int|
                            if 0 <= i < members@.len() {
                                (members@[i].0@, members@[i].1.view())
                            } else {
                                (Seq::empty(), JsonView::Null)
                            },
                    ),
                ),
            ),
        }
    }
}

/// The models of a list of values, in order.
pub open spec fn items_view(items: Seq<Json>) -> Seq<JsonView> {
    Seq::new(items.len(), |i: int| items[i]@)
}

/// The models of a list of named values, in order.
pub open spec fn members_view(members: Seq<(String, Json)>) -> Seq<(Seq<char>, JsonView)> {
    Seq::new(members.len(), |i: int| (members[i].0@, members[i].1@))
}

/// The model of an array is the list of the models of its items.
pub proof fn lemma_array_view(items: Vec<Json>)
    ensures
        Json::Array(items)@ == JsonView::Array(items_view(items@)),
{
    reveal_with_fuel(<Json as View>::view, 2);
    assert(Json::Array(items)@->Array_0 =~= items_view(items@));
}

/// The model of an object is the map of the models of its members.
pub proof fn lemma_object_view(members: Vec<(String, Json)>)
    ensures
        Json::Object(members)@ == JsonView::Object(pairs_map(members_view(members@))),
{
    reveal_with_fuel(<Json as View>::view, 2);
    let map = Json::Object(members)@->Object_0;
    assert(exists|pairs: Seq<(Seq<char>, JsonView)>|
        #[trigger] pairs_map(pairs) == map && pairs =~= members_view(members@));
}

/// Appending a named value to a list inserts it into the map.
pub proof fn lemma_pairs_map_push(pairs: Seq<(Seq<char>, JsonView)>, name: Seq<char>, value: JsonView)
    ensures
        pairs_map(pairs.push((name, value))) == pairs_map(pairs).insert(name, value),
{
    assert(pairs.push((name, value)).drop_last() =~= pairs);
}

/// Whether some entry of the list carries `name`.
pub open spec fn pairs_name(pairs: Seq<(Seq<char>, JsonView)>, name: Seq<char>) -> bool {
    exists|i: int| 0 <= i < pairs.len() && (#[trigger] pairs[i]).0 == name
}

/// A name is in the map exactly if some entry of the list carries it.
pub proof fn lemma_pairs_map_dom(pairs: Seq<(Seq<char>, JsonView)>, name: Seq<char>)
    ensures
        pairs_map(pairs).dom().contains(name) <==> pairs_name(pairs, name),
    decreases pairs.len(),
{
    if pairs.len() > 0 {
        let front = pairs.drop_last();
        lemma_pairs_map_dom(front, name);
        if pairs.last().0 != name {
            if pairs_name(front, name) {
                let i = choose|i: int| 0 <= i < front.len() && (#[trigger] front[i]).0 == name;
                assert(pairs[i].0 == name);
            } else if pairs_name(pairs, name) {
                let i = choose|i: int| 0 <= i < pairs.len() && (#[trigger] pairs[i]).0 == name;
                assert(front[i].0 == name);
            }
        }
    }
}

/// The map gives a name the value of the last entry that carries it.
pub proof fn lemma_pairs_map_value(pairs: Seq<(Seq<char>, JsonView)>, name: Seq<char>, i: int)
    requires
        0 <= i < pairs.len(),
        pairs[i].0 == name,
        forall|j: int| i < j < pairs.len() ==> (#[trigger] pairs[j]).0 != name,
    ensures
        pairs_map(pairs).dom().contains(name),
        pairs_map(pairs)[name] == pairs[i].1,
    decreases pairs.len(),
{
    let front = pairs.drop_last();
    if i < pairs.len() - 1 {
        assert forall|j: int| i < j < front.len() implies (#[trigger] front[j]).0 != name by {
            assert(front[j] == pairs[j]);
        }
        lemma_pairs_map_value(front, name, i);
    }
}

/// How deep arrays and objects may nest in a value that is written.
pub const MAX_NESTING: u8 = 16;

/// Whether `tree` can be written as it is: every number in it fits 64 bits
/// without sign or fraction, and arrays and objects nest at most `depth`
/// deep.
pub open spec fn writable(tree: JsonView, depth: nat) -> bool
    decreases depth,
{
    match tree {
        JsonView::Number(number) => number is Some,
        JsonView::Array(items) => depth > 0 && forall|i: int|
            0 <= i < items.len() ==> writable(#[trigger] items[i], (depth - 1) as nat),
        JsonView::Object(members) => depth > 0 && forall|name: Seq<char>|
            members.dom().contains(name) ==> writable(#[trigger] members[name], (depth - 1) as nat),
        _ => true,
    }
}

/// What can be written within some depth can be written within a greater one.
pub proof fn lemma_writable_deeper(tree: JsonView, depth: nat, more: nat)
    requires
        writable(tree, depth),
        depth <= more,
    ensures
        writable(tree, more),
    decreases depth,
{
    match tree {
        JsonView::Array(items) => {
            assert forall|i: int| 0 <= i < items.len() implies writable(
                #[trigger] items[i],
                (more - 1) as nat,
            ) by {
                lemma_writable_deeper(items[i], (depth - 1) as nat, (more - 1) as nat);
            }
        },
        JsonView::Object(members) => {
            assert forall|name: Seq<char>| members.dom().contains(name) implies writable(
                #[trigger] members[name],
                (more - 1) as nat,
            ) by {
                lemma_writable_deeper(members[name], (depth - 1) as nat, (more - 1) as nat);
            }
        },
        _ => {},
    }
}

/// A JSON value of serde_json.
#[verifier::external_type_specification]
#[verifier::external_body]
pub struct ExValue(Value);

/// What a value of serde_json holds.
pub uninterp spec fn value_tree(value: Value) -> JsonView;

/// What serde_json reads from a text: `None` where the text is not one JSON
/// value.
pub uninterp spec fn parsed_text(text: Seq<char>) -> Option<JsonView>;

/// What serde_json reads from bytes: `None` where they are not one JSON value
/// in UTF-8.
pub uninterp spec fn parsed_bytes(bytes: Seq<u8>) -> Option<JsonView>;

/// The compact text that serde_json writes for a value.
pub uninterp spec fn rendered(tree: JsonView) -> Seq<char>;

/// Reads one JSON value from `text` with `serde_json::from_str`.
///
/// The result is a function of the text: it is named by [`parsed_text`]
/// and [`value_tree`].
#[verifier::external_body]
fn value_from_text(text: &str) -> (value: Option<Value>)
    ensures
        match value {
            Some(v) => parsed_text(text@) == Some(value_tree(v)),
            None => parsed_text(text@) is None,
        },
{
    serde_json::from_str::<Value>(text).ok()
}

/// Reads one JSON value from `bytes` with `serde_json::from_slice`.
///
/// The result is a function of the bytes: it is named by [`parsed_bytes`]
/// and [`value_tree`].
#[verifier::external_body]
fn value_from_bytes(bytes: &[u8]) -> (value: Option<Value>)
    ensures
        match value {
            Some(v) => parsed_bytes(bytes@) == Some(value_tree(v)),
            None => parsed_bytes(bytes@) is None,
        },
{
    serde_json::from_slice::<Value>(bytes).ok()
}

/// Writes `value` as compact JSON text with `serde_json::to_string`, which
/// cannot fail on a value of serde_json.
///
/// Where every number of the value fits 64 bits without sign or fraction,
/// the text is a function of what the value holds: it is named by
/// [`rendered`]. The value nests no deeper than [`MAX_NESTING`].
#[verifier::external_body]
fn text_from_value(value: &Value) -> (text: String)
    requires
        writable(value_tree(*value), MAX_NESTING as nat),
    ensures
        text@ == rendered(value_tree(*value)),
{
    serde_json::to_string(value).unwrap_or_default()
}

/// Moves what a value of serde_json holds into a [`Json`], variant by
/// variant. A number becomes what `serde_json::Number::as_u64` gives for it.
#[verifier::external_body]
fn json_from_value(value: Value) -> (json: Json)
    ensures
        json@ == value_tree(value),
{
    match value {
        Value::Null => Json::Null,
        Value::Bool(flag) => Json::Bool(flag),
        Value::Number(number) => Json::Number(number.as_u64()),
        Value::String(text) => Json::Str(text),
        Value::Array(items) => Json::Array(items.into_iter().map(json_from_value).collect()),
        Value::Object(members) => Json::Object(
            members.into_iter().map(|(name, member)| (name, json_from_value(member))).collect(),
        ),
    }
}

/// Builds the value of serde_json that holds what `json` holds, variant by
/// variant. The members of an object go into a `serde_json::Map` by
/// `insert`, in order, so that the last member of a name counts. Every
/// number of `json` is one that serde_json holds unchanged, and `json` nests
/// no deeper than [`MAX_NESTING`].
#[verifier::external_body]
fn value_from_json(json: &Json) -> (value: Value)
    requires
        writable(json@, MAX_NESTING as nat),
    ensures
        value_tree(value) == json@,
{
    match json {
        Json::Null => Value::Null,
        Json::Bool(flag) => Value::Bool(*flag),
        Json::Number(number) => Value::from(*number),
        Json::Str(text) => Value::String(text.clone()),
        Json::Array(items) => Value::Array(items.iter().map(value_from_json).collect()),
        Json::Object(members) => {
            let mut map = serde_json::Map::new();
            members.iter().for_each(|(name, member)| {
                map.insert(name.clone(), value_from_json(member));
            });
            Value::Object(map)
        },
    }
}

/// The member `name` of an object; `None` where `tree` is no object or has
/// no such member.
pub open spec fn tree_member(tree: JsonView, name: Seq<char>) -> Option<JsonView> {
    match tree {
        JsonView::Object(members) => if members.dom().contains(name) {
            Some(members[name])
        } else {
            None
        },
        _ => None,
    }
}

/// The value under `tag` in an object whose only member is named `tag`;
/// `None` for every other tree.
pub open spec fn tree_variant(tree: JsonView, tag: Seq<char>) -> Option<JsonView> {
    match tree {
        JsonView::Object(members) => if members.dom() == set![tag] {
            Some(members[tag])
        } else {
            None
        },
        _ => None,
    }
}

/// The text of a string; `None` for every other tree.
pub open spec fn tree_text(tree: JsonView) -> Option<Seq<char>> {
    match tree {
        JsonView::Str(text) => Some(text),
        _ => None,
    }
}

/// The number, where the tree is one that fits 64 bits without sign or
/// fraction; `None` for every other tree.
pub open spec fn tree_number(tree: JsonView) -> Option<u64> {
    match tree {
        JsonView::Number(number) => number,
        _ => None,
    }
}

/// The truth value of `true` or `false`; `None` for every other tree.
pub open spec fn tree_flag(tree: JsonView) -> Option<bool> {
    match tree {
        JsonView::Bool(flag) => Some(flag),
        _ => None,
    }
}

/// The items of an array; `None` for every other tree.
pub open spec fn tree_items(tree: JsonView) -> Option<Seq<JsonView>> {
    match tree {
        JsonView::Array(items) => Some(items),
        _ => None,
    }
}

/// Appends the member `name` with `value` to the members of an object.
pub fn put_member(members: &mut Vec<(String, Json)>, name: &str, value: Json)
    ensures
        pairs_map(members_view(final(members)@)) == pairs_map(members_view(old(members)@)).insert(
            name@,
            value@,
        ),
{
    members.push((name.to_owned(), value));
    proof {
        assert(members_view(members@) =~= members_view(old(members)@).push((name@, value@)));
        lemma_pairs_map_push(members_view(old(members)@), name@, value@);
    }
}

impl Json {
    /// The member `name` of an object.
    pub fn member(&self, name: &str) -> (found: Option<&Json>)
        ensures
            match found {
                Some(value) => tree_member(self@, name@) == Some(value@),
                None => tree_member(self@, name@) is None,
            },
    {
        match self {
            Json::Object(members) => {
                let key = name.to_owned();
                let ghost pairs = members_view(members@);
                proof {
                    lemma_object_view(*members);
                    lemma_pairs_map_dom(pairs, name@);
                }
                let mut i: usize = members.len();
                while i > 0
                    invariant
                        i <= members@.len(),
                        key@ == name@,
                        pairs == members_view(members@),
                        self@ == JsonView::Object(pairs_map(pairs)),
                        forall|j: int| i <= j < pairs.len() ==> (#[trigger] pairs[j]).0 != name@,
                    decreases i,
                {
                    i -= 1;
                    if members[i].0 == key {
                        proof {
                            lemma_pairs_map_value(pairs, name@, i as int);
                        }
                        return Some(&members[i].1);
                    }
                }
                None
            },
            _ => None,
        }
    }

    /// The value under `tag`, where the value is an object whose only member
    /// is named `tag`.
    pub fn variant(&self, tag: &str) -> (found: Option<&Json>)
        ensures
            match found {
                Some(value) => tree_variant(self@, tag@) == Some(value@),
                None => tree_variant(self@, tag@) is None,
            },
    {
        match self {
            Json::Object(members) => {
                let key = tag.to_owned();
                let ghost pairs = members_view(members@);
                let ghost map = pairs_map(pairs);
                proof {
                    lemma_object_view(*members);
                    lemma_pairs_map_dom(pairs, tag@);
                }
                if members.len() == 0 {
                    return None;
                }
                let mut i: usize = 0;
                while i < members.len()
                    invariant
                        i <= members@.len(),
                        key@ == tag@,
                        pairs == members_view(members@),
                        map == pairs_map(pairs),
                        self@ == JsonView::Object(map),
                        forall|j: int| 0 <= j < i ==> (#[trigger] pairs[j]).0 == tag@,
                    decreases members@.len() - i,
                {
                    if members[i].0 != key {
                        proof {
                            let other = pairs[i as int].0;
                            lemma_pairs_map_dom(pairs, other);
                        }
                        return None;
                    }
                    i += 1;
                }
                let last: usize = members.len() - 1;
                proof {
                    lemma_pairs_map_value(pairs, tag@, last as int);
                    assert forall|name: Seq<char>| map.dom().contains(name) implies name
                        == tag@ by {
                        lemma_pairs_map_dom(pairs, name);
                    }
                    assert(map.dom() =~= set![tag@]);
                }
                Some(&members[last].1)
            },
            _ => None,
        }
    }

    /// The text, where the value is a string.
    pub fn text(&self) -> (found: Option<String>)
        ensures
            match found {
                Some(text) => tree_text(self@) == Some(text@),
                None => tree_text(self@) is None,
            },
    {
        match self {
            Json::Str(text) => Some(text.clone()),
            _ => None,
        }
    }

    /// The number, where the value is one that fits 64 bits without sign or
    /// fraction.
    pub fn number(&self) -> (found: Option<u64>)
        ensures
            found == tree_number(self@),
    {
        match self {
            Json::Number(number) => *number,
            _ => None,
        }
    }

    /// The truth value, where the value is `true` or `false`.
    pub fn flag(&self) -> (found: Option<bool>)
        ensures
            found == tree_flag(self@),
    {
        match self {
            Json::Bool(flag) => Some(*flag),
            _ => None,
        }
    }

    /// The items, where the value is an array.
    pub fn items(&self) -> (found: Option<&Vec<Json>>)
        ensures
            match found {
                Some(items) => tree_items(self@) == Some(items_view(items@)),
                None => tree_items(self@) is None,
            },
    {
        match self {
            Json::Array(items) => {
                proof {
                    lemma_array_view(*items);
                }
                Some(items)
            },
            _ => None,
        }
    }

    /// Reads one JSON value from `text`.
    pub fn parse(text: &str) -> (json: Option<Json>)
        ensures
            match json {
                Some(j) => parsed_text(text@) == Some(j@),
                None => parsed_text(text@) is None,
            },
    {
        match value_from_text(text) {
            Some(value) => Some(json_from_value(value)),
            None => None,
        }
    }

    /// Reads one JSON value from `bytes`.
    pub fn parse_bytes(bytes: &[u8]) -> (json: Option<Json>)
        ensures
            match json {
                Some(j) => parsed_bytes(bytes@) == Some(j@),
                None => parsed_bytes(bytes@) is None,
            },
    {
        match value_from_bytes(bytes) {
            Some(value) => Some(json_from_value(value)),
            None => None,
        }
    }

    /// Writes the value as compact JSON text.
    pub fn render(&self) -> (text: String)
        requires
            writable(self@, MAX_NESTING as nat),
        ensures
            text@ == rendered(self@),
    {
        let value = value_from_json(self);
        text_from_value(&value)
    }
}

} // verus!
