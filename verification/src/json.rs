//! A JSON document as a tree of plain values, read from text and written out again.

use crate::ident::{rank_ids, Rank};
use vstd::prelude::*;

verus! {

/// A JSON value. A number keeps its numeral as written out, and its value where
/// that is an integer of 64 bits. An object keeps its members in a list.
#[derive(Debug, PartialEq, Eq)]
pub enum Json {
    Null,
    Bool(bool),
    Number { integer: Option<i64>, literal: String },
    Text(String),
    Array(Vec<Json>),
    Object(Vec<(String, Json)>),
}

/// The mathematical value of a JSON value.
pub enum JsonView {
    Null,
    Bool(bool),
    Number { integer: Option<i64>, literal: Seq<char> },
    Text(Seq<char>),
    Array(Seq<JsonView>),
    Object(Seq<(Seq<char>, JsonView)>),
}

impl View for Json {
    type V = JsonView;

    open spec fn view(&self) -> JsonView
        decreases self,
    {
        match self {
            Json::Null => JsonView::Null,
            Json::Bool(flag) => JsonView::Bool(*flag),
            Json::Number { integer, literal } => JsonView::Number {
                integer: *integer,
                literal: literal@,
            },
            Json::Text(text) => JsonView::Text(text@),
            Json::Array(elements) => JsonView::Array(values_view(elements@)),
            Json::Object(members) => JsonView::Object(members_view(members@)),
        }
    }
}

/// The views of a sequence of values, in the same order.
pub open spec fn values_view(values: Seq<Json>) -> Seq<JsonView>
    decreases values,
{
    if values.len() == 0 {
        Seq::empty()
    } else {
        values_view(values.drop_last()).push(values.last()@)
    }
}

/// The views of an object's members, in the same order.
pub open spec fn members_view(members: Seq<(String, Json)>) -> Seq<(Seq<char>, JsonView)>
    decreases members,
{
    if members.len() == 0 {
        Seq::empty()
    } else {
        members_view(members.drop_last()).push((members.last().0@, members.last().1@))
    }
}

/// The view of a sequence of values holds the view of each, at its position.
pub proof fn lemma_values_view(values: Seq<Json>)
    ensures
        values_view(values).len() == values.len(),
        forall|i: int| 0 <= i < values.len() ==> #[trigger] values_view(values)[i] == values[i]@,
    decreases values.len(),
{
    if values.len() > 0 {
        lemma_values_view(values.drop_last());
        assert(values_view(values) == values_view(values.drop_last()).push(values.last()@));
    } else {
        assert(values_view(values) == Seq::<JsonView>::empty());
    }
}

/// The view of an object's members holds each name and the view of each value,
/// at its position.
pub proof fn lemma_members_view(members: Seq<(String, Json)>)
    ensures
        members_view(members).len() == members.len(),
        forall|i: int|
            0 <= i < members.len() ==> #[trigger] members_view(members)[i] == (
                members[i].0@,
                members[i].1@,
            ),
    decreases members.len(),
{
    if members.len() > 0 {
        lemma_members_view(members.drop_last());
        assert(members_view(members) == members_view(members.drop_last()).push(
            (members.last().0@, members.last().1@),
        ));
    } else {
        assert(members_view(members) == Seq::<(Seq<char>, JsonView)>::empty());
    }
}

/// The document that a text holds, if the text is one JSON value and nothing
/// else: what `serde_json::from_str` makes of it.
pub uninterp spec fn json_document(text: Seq<char>) -> Option<JsonView>;

/// The text that `serde_json` writes for a value that holds this tree: a string
/// as a JSON string literal, a number as its numeral, an array and an object
/// with all that is inside them, without white space.
pub uninterp spec fn json_text(tree: JsonView) -> Seq<char>;

/// The tree of the object that `serde_json` makes of these members when they
/// are put into its map one after the other.
pub uninterp spec fn object_tree(members: Seq<(Seq<char>, JsonView)>) -> JsonView;

/// The tree of the value that `serde_json` makes of this tree: a number is read
/// from its numeral, and an object is made of its members; strings, truth
/// values and null are as they are.
pub open spec fn rebuilt(tree: JsonView) -> JsonView
    decreases tree,
{
    match tree {
        JsonView::Number { literal, .. } => match json_document(literal) {
            Some(read) => read,
            None => JsonView::Null,
        },
        JsonView::Array(elements) => JsonView::Array(rebuilt_all(elements)),
        JsonView::Object(members) => object_tree(rebuilt_members(members)),
        other => other,
    }
}

/// Each tree of the sequence, rebuilt.
pub open spec fn rebuilt_all(trees: Seq<JsonView>) -> Seq<JsonView>
    decreases trees,
{
    if trees.len() == 0 {
        Seq::empty()
    } else {
        rebuilt_all(trees.drop_last()).push(rebuilt(trees.last()))
    }
}

/// Each member of the sequence under its name, its tree rebuilt.
pub open spec fn rebuilt_members(members: Seq<(Seq<char>, JsonView)>) -> Seq<
    (Seq<char>, JsonView),
>
    decreases members,
{
    if members.len() == 0 {
        Seq::empty()
    } else {
        rebuilt_members(members.drop_last()).push((members.last().0, rebuilt(members.last().1)))
    }
}

/// The rebuilt sequence holds each tree rebuilt, at its position.
pub proof fn lemma_rebuilt_all(trees: Seq<JsonView>)
    ensures
        rebuilt_all(trees).len() == trees.len(),
        forall|i: int| 0 <= i < trees.len() ==> #[trigger] rebuilt_all(trees)[i] == rebuilt(trees[i]),
    decreases trees.len(),
{
    if trees.len() > 0 {
        lemma_rebuilt_all(trees.drop_last());
        assert(rebuilt_all(trees) == rebuilt_all(trees.drop_last()).push(rebuilt(trees.last())));
    } else {
        assert(rebuilt_all(trees) == Seq::<JsonView>::empty());
    }
}

/// The rebuilt members hold each name and each tree rebuilt, at its position.
pub proof fn lemma_rebuilt_members(members: Seq<(Seq<char>, JsonView)>)
    ensures
        rebuilt_members(members).len() == members.len(),
        forall|i: int|
            0 <= i < members.len() ==> #[trigger] rebuilt_members(members)[i] == (
                members[i].0,
                rebuilt(members[i].1),
            ),
    decreases members.len(),
{
    if members.len() > 0 {
        lemma_rebuilt_members(members.drop_last());
        assert(rebuilt_members(members) == rebuilt_members(members.drop_last()).push(
            (members.last().0, rebuilt(members.last().1)),
        ));
    } else {
        assert(rebuilt_members(members) == Seq::<(Seq<char>, JsonView)>::empty());
    }
}

/// The position of the first member named `key`, looking from `from` on.
pub open spec fn member_position(
    members: Seq<(Seq<char>, JsonView)>,
    key: Seq<char>,
    from: int,
) -> int
    decreases members.len() - from,
{
    if from >= members.len() {
        members.len() as int
    } else if members[from].0 == key {
        from
    } else {
        member_position(members, key, from + 1)
    }
}

impl JsonView {
    /// The member of an object under `key`: the first, where several share the
    /// name. Anything that is no object, or has no such member, gives `Null`.
    pub open spec fn member(self, key: Seq<char>) -> JsonView {
        match self {
            JsonView::Object(members) => {
                let at = member_position(members, key, 0);
                if at < members.len() {
                    members[at].1
                } else {
                    JsonView::Null
                }
            },
            _ => JsonView::Null,
        }
    }

    /// The element of an array at `at`. Anything that is no array, or is
    /// shorter, gives `Null`.
    pub open spec fn element(self, at: int) -> JsonView {
        match self {
            JsonView::Array(elements) => if 0 <= at < elements.len() {
                elements[at]
            } else {
                JsonView::Null
            },
            _ => JsonView::Null,
        }
    }

    /// The value as an integer, where it is a number that is one.
    pub open spec fn integer(self) -> Option<i64> {
        match self {
            JsonView::Number { integer, .. } => integer,
            _ => None,
        }
    }

    /// The value as text, where it is a string.
    pub open spec fn text(self) -> Option<Seq<char>> {
        match self {
            JsonView::Text(text) => Some(text),
            _ => None,
        }
    }

    /// The elements, where the value is an array.
    pub open spec fn elements(self) -> Option<Seq<JsonView>> {
        match self {
            JsonView::Array(elements) => Some(elements),
            _ => None,
        }
    }
}

impl Json {
    /// Looks up the member of an object under `key`.
    #[verifier::loop_isolation(false)]
    pub fn get<'a>(&'a self, key: &str) -> (found: Option<&'a Json>)
        ensures
            match found {
                Some(value) => value@ == self@.member(key@),
                None => self@.member(key@) == JsonView::Null,
            },
    {
        match self {
            Json::Object(members) => {
                let ghost pairs = self@->Object_0;
                proof {
                    lemma_members_view(members@);
                }
                let mut at: usize = 0;
                while at < members.len()
                    invariant
                        at <= members.len(),
                        member_position(pairs, key@, 0) == member_position(pairs, key@, at as int),
                    decreases members.len() - at,
                {
                    assert(pairs[at as int] == (members[at as int].0@, members[at as int].1@));
                    match rank_ids(members[at].0.as_str(), key) {
                        Rank::Same => {
                            return Some(&members[at].1);
                        },
                        _ => {},
                    }
                    at += 1;
                }
                None
            },
            _ => None,
        }
    }

    /// Looks up the member under `inner` of the member under `outer`.
    pub fn get_nested<'a>(&'a self, outer: &str, inner: &str) -> (found: Option<&'a Json>)
        ensures
            match found {
                Some(value) => value@ == self@.member(outer@).member(inner@),
                None => self@.member(outer@).member(inner@) == JsonView::Null,
            },
    {
        match self.get(outer) {
            Some(value) => value.get(inner),
            None => None,
        }
    }

    /// Looks up the element of an array at `index`.
    pub fn at<'a>(&'a self, index: usize) -> (found: Option<&'a Json>)
        ensures
            match found {
                Some(value) => value@ == self@.element(index as int),
                None => self@.element(index as int) == JsonView::Null,
            },
    {
        match self {
            Json::Array(elements) => {
                proof {
                    lemma_values_view(elements@);
                }
                if index < elements.len() {
                    Some(&elements[index])
                } else {
                    None
                }
            },
            _ => None,
        }
    }

    /// The value as an integer, where it is a number that is one.
    pub fn as_integer(&self) -> (value: Option<i64>)
        ensures
            value == self@.integer(),
    {
        match self {
            Json::Number { integer, .. } => *integer,
            _ => None,
        }
    }

    /// The value as text, where it is a string.
    pub fn as_text(&self) -> (value: Option<&str>)
        ensures
            match value {
                Some(text) => self@.text() == Some(text@),
                None => self@.text() is None,
            },
    {
        match self {
            Json::Text(text) => Some(text.as_str()),
            _ => None,
        }
    }

    /// The elements, where the value is an array.
    pub fn as_elements(&self) -> (value: Option<&Vec<Json>>)
        ensures
            match value {
                Some(elements) => self@.elements() == Some(values_view(elements@)),
                None => self@.elements() is None,
            },
    {
        match self {
            Json::Array(elements) => Some(elements),
            _ => None,
        }
    }
}

/// A value as `serde_json` holds it. Nothing of it is seen here but through
/// `value_tree` and `value_height`.
#[verifier::external_type_specification]
#[verifier::external_body]
pub struct ExValue(serde_json::Value);

/// The tree that a value of `serde_json` holds.
pub uninterp spec fn value_tree(value: serde_json::Value) -> JsonView;

/// The height of the tree that a value of `serde_json` holds: more than that of
/// any value inside it.
pub uninterp spec fn value_height(value: serde_json::Value) -> nat;

/// One level of a value of `serde_json`: what it holds itself, and the values
/// inside it as they are.
enum Node {
    Null,
    Bool(bool),
    Number { integer: Option<i64>, literal: String },
    Text(String),
    Array(Vec<serde_json::Value>),
    Object(Vec<(String, serde_json::Value)>),
}

/// The trees of the values inside an array, in the same order.
pub open spec fn element_trees(elements: Seq<serde_json::Value>) -> Seq<JsonView> {
    Seq::new(elements.len(), |i: int| value_tree(elements[i]))
}

/// The names and trees of the members inside an object, in the same order.
pub open spec fn member_trees(members: Seq<(String, serde_json::Value)>) -> Seq<
    (Seq<char>, JsonView),
> {
    Seq::new(members.len(), |i: int| (members[i].0@, value_tree(members[i].1)))
}

/// Reads a value with `serde_json::from_str`. The text must hold one JSON value
/// and nothing but white space around it; otherwise there is no value. The same
/// text always gives a value that holds the same tree.
#[verifier::external_body]
fn parse_value(text: &str) -> (value: Option<serde_json::Value>)
    ensures
        match value {
            Some(parsed) => json_document(text@) == Some(value_tree(parsed)),
            None => json_document(text@) is None,
        },
{
    match serde_json::from_str::<serde_json::Value>(text) {
        Ok(parsed) => Some(parsed),
        Err(_) => None,
    }
}

/// Takes a value of `serde_json` apart, one variant for each of its own. A
/// number gives `Number::as_i64` and its numeral as `serde_json` displays it; an
/// object gives its members in the order of its map. The values inside an array
/// or an object are handed on as they are, each a smaller tree than the whole.
#[verifier::external_body]
fn open_value(value: serde_json::Value) -> (node: Node)
    ensures
        match node {
            Node::Null => value_tree(value) == JsonView::Null,
            Node::Bool(flag) => value_tree(value) == JsonView::Bool(flag),
            Node::Number { integer, literal } => value_tree(value) == (JsonView::Number {
                integer,
                literal: literal@,
            }),
            Node::Text(text) => value_tree(value) == JsonView::Text(text@),
            Node::Array(elements) => {
                &&& value_tree(value) == JsonView::Array(element_trees(elements@))
                &&& forall|i: int|
                    0 <= i < elements@.len() ==> value_height(#[trigger] elements@[i])
                        < value_height(value)
            },
            Node::Object(members) => {
                &&& value_tree(value) == JsonView::Object(member_trees(members@))
                &&& forall|i: int|
                    0 <= i < members@.len() ==> value_height((#[trigger] members@[i]).1)
                        < value_height(value)
            },
        },
{
    match value {
        serde_json::Value::Null => Node::Null,
        serde_json::Value::Bool(flag) => Node::Bool(flag),
        serde_json::Value::Number(n) => Node::Number { integer: n.as_i64(), literal: n.to_string() },
        serde_json::Value::String(text) => Node::Text(text),
        serde_json::Value::Array(elements) => Node::Array(elements),
        serde_json::Value::Object(members) => Node::Object(members.into_iter().collect()),
    }
}

/// Builds the tree that a value of `serde_json` holds.
fn lift(value: serde_json::Value) -> (tree: Json)
    ensures
        tree@ == value_tree(value),
    decreases value_height(value),
{
    match open_value(value) {
        Node::Null => Json::Null,
        Node::Bool(flag) => Json::Bool(flag),
        Node::Number { integer, literal } => Json::Number { integer, literal },
        Node::Text(text) => Json::Text(text),
        Node::Array(elements) => {
            let mut lifted: Vec<Json> = Vec::new();
            proof {
                lemma_values_view(lifted@);
            }
            for element in it: elements.into_iter()
                invariant
                    it.seq() == elements@,
                    forall|i: int|
                        0 <= i < elements@.len() ==> value_height(#[trigger] elements@[i])
                            < value_height(value),
                    values_view(lifted@) == element_trees(elements@).take(it.index() as int),
            {
                let ghost before = lifted@;
                assert(element == elements@[it.index() as int]);
                let tree = lift(element);
                lifted.push(tree);
                proof {
                    assert(lifted@.drop_last() =~= before);
                    assert(values_view(lifted@) =~= element_trees(elements@).take(
                        it.index() + 1,
                    ));
                }
            }
            proof {
                assert(element_trees(elements@).take(elements@.len() as int) =~= element_trees(
                    elements@,
                ));
            }
            Json::Array(lifted)
        },
        Node::Object(members) => {
            let mut lifted: Vec<(String, Json)> = Vec::new();
            proof {
                lemma_members_view(lifted@);
            }
            for member in it: members.into_iter()
                invariant
                    it.seq() == members@,
                    forall|i: int|
                        0 <= i < members@.len() ==> value_height((#[trigger] members@[i]).1)
                            < value_height(value),
                    members_view(lifted@) == member_trees(members@).take(it.index() as int),
            {
                let ghost before = lifted@;
                assert(member == members@[it.index() as int]);
                let (name, inner) = member;
                let tree = lift(inner);
                lifted.push((name, tree));
                proof {
                    assert(lifted@.drop_last() =~= before);
                    assert(members_view(lifted@) =~= member_trees(members@).take(
                        it.index() + 1,
                    ));
                }
            }
            proof {
                assert(member_trees(members@).take(members@.len() as int) =~= member_trees(
                    members@,
                ));
            }
            Json::Object(lifted)
        },
    }
}

/// Reads a document from text that holds one JSON value and nothing but white
/// space around it. Any other text holds no document.
pub fn read_document(text: &str) -> (document: Option<Json>)
    ensures
        match document {
            Some(read) => Some(read@),
            None => None,
        } == json_document(text@),
{
    match parse_value(text) {
        Some(value) => Some(lift(value)),
        None => None,
    }
}

/// What a value of `serde_json` is put together from: its own content, and the
/// values inside it as they are.
enum Part {
    Null,
    Bool(bool),
    Text(String),
    Array(Vec<serde_json::Value>),
    Object(Vec<(String, serde_json::Value)>),
}

/// Puts a value of `serde_json` together, one of its variants for each part.
/// An object is made by collecting its members into the map of `serde_json`,
/// one after the other.
#[verifier::external_body]
fn close_value(part: Part) -> (value: serde_json::Value)
    ensures
        match part {
            Part::Null => value_tree(value) == JsonView::Null,
            Part::Bool(flag) => value_tree(value) == JsonView::Bool(flag),
            Part::Text(text) => value_tree(value) == JsonView::Text(text@),
            Part::Array(elements) => value_tree(value) == JsonView::Array(
                element_trees(elements@),
            ),
            Part::Object(members) => value_tree(value) == object_tree(member_trees(members@)),
        },
{
    match part {
        Part::Null => serde_json::Value::Null,
        Part::Bool(flag) => serde_json::Value::Bool(flag),
        Part::Text(text) => serde_json::Value::String(text),
        Part::Array(elements) => serde_json::Value::Array(elements),
        Part::Object(members) => serde_json::Value::Object(members.into_iter().collect()),
    }
}

/// Writes a value out as `serde_json` displays it. What is written depends on
/// the tree that the value holds and on nothing else.
#[verifier::external_body]
fn write_value(value: &serde_json::Value) -> (text: String)
    ensures
        text@ == json_text(value_tree(*value)),
{
    value.to_string()
}

/// Makes of a tree the value of `serde_json` that it stands for.
#[verifier::loop_isolation(false)]
fn lower(json: &Json) -> (value: serde_json::Value)
    ensures
        value_tree(value) == rebuilt(json@),
    decreases json,
{
    match json {
        Json::Null => close_value(Part::Null),
        Json::Bool(flag) => close_value(Part::Bool(*flag)),
        Json::Number { literal, .. } => match parse_value(literal.as_str()) {
            Some(read) => read,
            None => close_value(Part::Null),
        },
        Json::Text(text) => close_value(Part::Text(text.clone())),
        Json::Array(elements) => {
            let ghost trees = values_view(elements@);
            let mut lowered: Vec<serde_json::Value> = Vec::new();
            let mut at: usize = 0;
            proof {
                lemma_values_view(elements@);
                lemma_rebuilt_all(trees);
            }
            while at < elements.len()
                invariant
                    at <= elements.len(),
                    lowered.len() == at,
                    element_trees(lowered@) == rebuilt_all(trees).take(at as int),
                decreases elements.len() - at,
            {
                let ghost before = lowered@;
                let value = lower(&elements[at]);
                lowered.push(value);
                proof {
                    assert(value_tree(value) == rebuilt(trees[at as int]));
                    assert(forall|i: int|
                        0 <= i < at ==> element_trees(lowered@)[i] == element_trees(before)[i]);
                    assert(element_trees(lowered@) =~= rebuilt_all(trees).take(at + 1));
                }
                at += 1;
            }
            assert(rebuilt_all(trees).take(at as int) =~= rebuilt_all(trees));
            close_value(Part::Array(lowered))
        },
        Json::Object(members) => {
            let ghost pairs = members_view(members@);
            let mut lowered: Vec<(String, serde_json::Value)> = Vec::new();
            let mut at: usize = 0;
            proof {
                lemma_members_view(members@);
                lemma_rebuilt_members(pairs);
            }
            while at < members.len()
                invariant
                    at <= members.len(),
                    lowered.len() == at,
                    member_trees(lowered@) == rebuilt_members(pairs).take(at as int),
                decreases members.len() - at,
            {
                let ghost before = lowered@;
                let name = members[at].0.clone();
                let value = lower(&members[at].1);
                lowered.push((name, value));
                proof {
                    assert(value_tree(value) == rebuilt(pairs[at as int].1));
                    assert(forall|i: int|
                        0 <= i < at ==> member_trees(lowered@)[i] == member_trees(before)[i]);
                    assert(member_trees(lowered@) =~= rebuilt_members(pairs).take(at + 1));
                }
                at += 1;
            }
            assert(rebuilt_members(pairs).take(at as int) =~= rebuilt_members(pairs));
            close_value(Part::Object(lowered))
        },
    }
}

/// Writes a value out as JSON, without white space: a number as the number that
/// its numeral names, an object as the object that its members make.
pub fn write_json(json: &Json) -> (text: String)
    ensures
        text@ == json_text(rebuilt(json@)),
{
    let value = lower(json);
    write_value(&value)
}

} // verus!
