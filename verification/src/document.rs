//! JSON text, read and printed by `serde_json`.
use serde_json::Value;
use vstd::prelude::*;

use crate::json::{entry_trees, lemma_entry_stays, lemma_list_trees, list_trees, Json, JsonTree};
use crate::text::same_text;

verus! {

/// A parsed JSON value of `serde_json`.
#[verifier::external_type_specification]
#[verifier::external_body]
pub struct ExValue(serde_json::Value);

/// Why `serde_json` refused a text.
#[verifier::external_type_specification]
#[verifier::external_body]
pub struct ExSyntaxError(serde_json::Error);

/// What a `serde_json::Value` holds: its scalars, its items and its members.
pub uninterp spec fn value_tree(value: serde_json::Value) -> JsonTree;

/// What `serde_json::from_str` reads in a text; `None` where it refuses the text.
pub uninterp spec fn json_parse(text: Seq<char>) -> Option<JsonTree>;

/// How `serde_json` prints a value whose numbers are all `i64`.
pub uninterp spec fn json_text(tree: JsonTree) -> Seq<char>;

/// A text that is meant as JSON, and what `serde_json` reads in it.
pub struct JsonText {
    pub text: Seq<char>,
    pub says: Option<JsonTree>,
}

/// A text, taken as JSON.
pub open spec fn as_json(text: Seq<char>) -> JsonText {
    JsonText { text, says: json_parse(text) }
}

/// The text that says `tree`, as `serde_json` prints it.
pub open spec fn printed(tree: JsonTree) -> JsonText {
    JsonText { text: json_text(tree), says: Some(tree) }
}

/// One level of a JSON value; the values below it are still closed.
pub enum Node {
    Null,
    Bool(bool),
    Number(Option<i64>),
    Text(String),
    List(Vec<Value>),
    Object(Vec<(String, Value)>),
}

impl View for Node {
    type V = JsonTree;

    open spec fn view(&self) -> JsonTree {
        match *self {
            Node::Null => JsonTree::Null,
            Node::Bool(b) => JsonTree::Bool(b),
            Node::Number(n) => JsonTree::Number(n),
            Node::Text(s) => JsonTree::Text(s@),
            Node::List(items) => JsonTree::List(items@.map_values(|v: Value| value_tree(v))),
            Node::Object(entries) => JsonTree::Object(node_entries(entries@)),
        }
    }
}

/// The members that a list of names and values gives; the first of equal names counts.
pub open spec fn node_entries(entries: Seq<(String, Value)>) -> Map<Seq<char>, JsonTree>
    decreases entries.len(),
{
    if entries.len() == 0 {
        Map::empty()
    } else {
        let earlier = node_entries(entries.drop_last());
        let (key, value) = entries.last();
        if earlier.dom().contains(key@) {
            earlier
        } else {
            earlier.insert(key@, value_tree(value))
        }
    }
}

/// No two entries have one name.
pub open spec fn distinct_names(entries: Seq<(String, Value)>) -> bool {
    forall|i: int, j: int|
        0 <= i < j < entries.len() ==> (#[trigger] entries[i]).0@ != (#[trigger] entries[j]).0@
}

/// `serde_json::from_str`, at the type `Value`: what it makes of a text is a function of the
/// text's characters, and `json_parse` names it.
#[verifier::external_body]
fn value_from_str(text: &str) -> (parsed: Result<Value, serde_json::Error>)
    ensures
        match parsed {
            Ok(value) => json_parse(text@) == Some(value_tree(value)),
            Err(_) => json_parse(text@) is None,
        },
{
    serde_json::from_str(text)
}

/// Takes a `serde_json::Value` apart by its variant: `Null`, `Bool`, `String`, `Array` and
/// `Object` hand over their fields, and a `Number` hands over what `Number::as_i64` says of it.
/// The entries of an object come out of a map, so no name comes twice.
#[verifier::external_body]
fn open_value(value: Value) -> (node: Node)
    ensures
        node@ == value_tree(value),
        node matches Node::Object(entries) ==> distinct_names(entries@),
{
    match value {
        Value::Null => Node::Null,
        Value::Bool(b) => Node::Bool(b),
        Value::Number(n) => Node::Number(n.as_i64()),
        Value::String(s) => Node::Text(s),
        Value::Array(items) => Node::List(items),
        Value::Object(members) => Node::Object(members.into_iter().collect()),
    }
}

/// Puts a `serde_json::Value` together, each variant from its fields: a number by
/// `Value::from`, and an object by collecting entries with distinct names into its map.
#[verifier::external_body]
fn close_value(node: Node) -> (value: Value)
    requires
        node matches Node::Number(n) ==> n is Some,
        node matches Node::Object(entries) ==> distinct_names(entries@),
    ensures
        value_tree(value) == node@,
{
    match node {
        Node::Null => Value::Null,
        Node::Bool(b) => Value::Bool(b),
        Node::Number(n) => Value::from(n),
        Node::Text(s) => Value::String(s),
        Node::List(items) => Value::Array(items),
        Node::Object(entries) => Value::Object(entries.into_iter().collect()),
    }
}

/// `Value`'s `Display`, the compact form. A value whose numbers are all `i64` is printed as a
/// function of what it holds, which `json_text` names, and `serde_json::from_str` reads the text
/// back as the same value: its parser goes 127 lists and objects deep.
#[verifier::external_body]
fn value_to_string(value: &Value) -> (text: String)
    requires
        value_tree(*value).printable(127),
    ensures
        text@ == json_text(value_tree(*value)),
        json_parse(text@) == Some(value_tree(*value)),
{
    value.to_string()
}

/// With distinct names every entry is a member.
proof fn lemma_entry_is_member(entries: Seq<(String, Value)>, i: int)
    requires
        distinct_names(entries),
        0 <= i < entries.len(),
    ensures
        node_entries(entries).dom().contains(entries[i].0@),
        node_entries(entries)[entries[i].0@] == value_tree(entries[i].1),
    decreases entries.len(),
{
    let shorter = entries.drop_last();
    if i < shorter.len() {
        lemma_entry_is_member(shorter, i);
    } else {
        lemma_absent_name(shorter, entries[i].0@);
    }
}

/// A name that no entry has is no member.
proof fn lemma_absent_name(entries: Seq<(String, Value)>, key: Seq<char>)
    requires
        forall|j: int| 0 <= j < entries.len() ==> (#[trigger] entries[j]).0@ != key,
    ensures
        !node_entries(entries).dom().contains(key),
    decreases entries.len(),
{
    if entries.len() > 0 {
        let shorter = entries.drop_last();
        assert forall|j: int| 0 <= j < shorter.len() implies (#[trigger] shorter[j]).0@ != key by {
            assert(shorter[j] == entries[j]);
        }
        lemma_absent_name(shorter, key);
        assert(entries.last() == entries[entries.len() - 1]);
    }
}

/// A list of entries has finitely many names.
proof fn lemma_finite_members(entries: Seq<(String, Value)>)
    ensures
        node_entries(entries).dom().finite(),
    decreases entries.len(),
{
    if entries.len() > 0 {
        lemma_finite_members(entries.drop_last());
    }
}

/// The plugin's own form of a `serde_json::Value`.
pub fn read_value(value: Value) -> (json: Json)
    ensures
        json@ == value_tree(value),
    decreases value_tree(value),
{
    match open_value(value) {
        Node::Null => Json::Null,
        Node::Bool(b) => Json::Bool(b),
        Node::Number(n) => Json::Number(n),
        Node::Text(s) => Json::Text(s),
        Node::List(items) => {
            let ghost trees = items@.map_values(|v: Value| value_tree(v));
            let mut list: Vec<Json> = Vec::new();
            for item in it: items
                invariant
                    value_tree(value) == JsonTree::List(trees),
                    trees == it.seq().map_values(|v: Value| value_tree(v)),
                    list_trees(list@) == trees.take(it.index()),
            {
                proof {
                    assert(trees[it.index()] == value_tree(item));
                    assert(decreases_to!(value_tree(value) => value_tree(value)->List_0));
                    assert(decreases_to!(trees => trees[it.index()]));
                }
                let ghost before = list@;
                list.push(read_value(item));
                proof {
                    assert(list@.drop_last() == before);
                    assert(trees.take(it.index() + 1) == trees.take(it.index()).push(
                        trees[it.index()],
                    ));
                }
            }
            proof {
                assert(trees.take(trees.len() as int) == trees);
            }
            Json::List(list)
        },
        Node::Object(entries) => {
            let ghost all = entries@;
            let mut list: Vec<(String, Json)> = Vec::new();
            for entry in it: entries
                invariant
                    value_tree(value) == JsonTree::Object(node_entries(all)),
                    all == it.seq(),
                    distinct_names(all),
                    entry_trees(list@) == node_entries(all.take(it.index())),
            {
                proof {
                    assert(all[it.index()] == entry);
                    lemma_entry_is_member(all, it.index());
                    lemma_finite_members(all);
                    let members = node_entries(all);
                    assert(decreases_to!(value_tree(value) => value_tree(value)->Object_0));
                    assert(decreases_to!(members => members[entry.0@]));
                }
                let ghost before = list@;
                list.push((entry.0, read_value(entry.1)));
                proof {
                    assert(list@.drop_last() == before);
                    assert(all.take(it.index() + 1).drop_last() == all.take(it.index()));
                }
            }
            proof {
                assert(all.take(all.len() as int) == all);
            }
            Json::Object(list)
        },
    }
}

/// Reads a JSON text.
pub fn parse(text: &str) -> (json: Option<Json>)
    ensures
        match json {
            Some(value) => json_parse(text@) == Some(value@),
            None => json_parse(text@) is None,
        },
{
    match value_from_str(text) {
        Ok(value) => Some(read_value(value)),
        Err(_) => None,
    }
}

/// What is printable at one depth is printable at a greater one.
proof fn lemma_printable_deeper(tree: JsonTree, depth: nat)
    requires
        tree.printable(depth),
    ensures
        tree.printable(depth + 1),
    decreases depth,
{
    match tree {
        JsonTree::List(items) => {
            assert forall|i: int| 0 <= i < items.len() implies (#[trigger] items[i]).printable(
                depth,
            ) by {
                lemma_printable_deeper(items[i], (depth - 1) as nat);
            }
        },
        JsonTree::Object(members) => {
            assert forall|key: Seq<char>| members.dom().contains(key) implies (
            #[trigger] members[key]).printable(depth) by {
                lemma_printable_deeper(members[key], (depth - 1) as nat);
            }
        },
        _ => {},
    }
}

/// The items of a printable list are printable.
proof fn lemma_printable_item(items: Seq<JsonTree>, depth: nat, i: int)
    requires
        JsonTree::List(items).printable(depth),
        0 <= i < items.len(),
    ensures
        items[i].printable((depth - 1) as nat),
{
    let tree = JsonTree::List(items);
    assert(tree.printable(depth));
    assert(tree->List_0 == items);
}

/// The members of a printable object are printable.
proof fn lemma_printable_member(members: Map<Seq<char>, JsonTree>, depth: nat, key: Seq<char>)
    requires
        JsonTree::Object(members).printable(depth),
        members.dom().contains(key),
    ensures
        members[key].printable((depth - 1) as nat),
{
    let tree = JsonTree::Object(members);
    assert(tree.printable(depth));
    assert(tree->Object_0 == members);
}

/// Whether an entry has the name `key`.
fn has_name(entries: &Vec<(String, Value)>, key: &str) -> (found: bool)
    ensures
        found == node_entries(entries@).dom().contains(key@),
{
    let mut i: usize = 0;
    let ghost all = entries@;
    while i < entries.len()
        invariant
            i <= entries@.len(),
            all == entries@,
            !node_entries(all.take(i as int)).dom().contains(key@),
        decreases entries@.len() - i,
    {
        proof {
            assert(all.take(i + 1).drop_last() == all.take(i as int));
        }
        if same_text(entries[i].0.as_str(), key) {
            proof {
                lemma_names_stay(all, i + 1, key@);
            }
            return true;
        }
        i += 1;
    }
    proof {
        assert(all.take(all.len() as int) == all);
    }
    false
}

/// A member of the first entries is a member of them all.
proof fn lemma_names_stay(entries: Seq<(String, Value)>, n: int, key: Seq<char>)
    requires
        0 <= n <= entries.len(),
        node_entries(entries.take(n)).dom().contains(key),
    ensures
        node_entries(entries).dom().contains(key),
    decreases entries.len() - n,
{
    if n == entries.len() {
        assert(entries.take(n) == entries);
    } else {
        assert(entries.take(n + 1).drop_last() == entries.take(n));
        lemma_names_stay(entries, n + 1, key);
    }
}

/// Where a name is no member, no entry has it.
proof fn lemma_absent_everywhere(entries: Seq<(String, Value)>, key: Seq<char>)
    requires
        !node_entries(entries).dom().contains(key),
    ensures
        forall|j: int| 0 <= j < entries.len() ==> (#[trigger] entries[j]).0@ != key,
    decreases entries.len(),
{
    if entries.len() > 0 {
        let shorter = entries.drop_last();
        lemma_absent_everywhere(shorter, key);
        assert forall|j: int| 0 <= j < entries.len() implies (#[trigger] entries[j]).0@ != key by {
            if j < shorter.len() {
                assert(shorter[j] == entries[j]);
            } else {
                assert(entries.last() == entries[j]);
            }
        }
    }
}

/// The `serde_json::Value` that says what `json` says.
fn write_value(json: &Json) -> (value: Value)
    requires
        json@.printable(127),
    ensures
        value_tree(value) == json@,
    decreases json,
{
    match json {
        Json::Null => close_value(Node::Null),
        Json::Bool(b) => close_value(Node::Bool(*b)),
        Json::Number(n) => close_value(Node::Number(*n)),
        Json::Text(s) => close_value(Node::Text(s.clone())),
        Json::List(items) => {
            let ghost trees = list_trees(items@);
            let mut list: Vec<Value> = Vec::new();
            let mut i: usize = 0;
            while i < items.len()
                invariant
                    i <= items@.len(),
                    json == Json::List(*items),
                    json@.printable(127),
                    trees == list_trees(items@),
                    list@.map_values(|v: Value| value_tree(v)) == list_trees(items@.take(i as int)),
                decreases items@.len() - i,
            {
                let ghost before = list@;
                proof {
                    lemma_list_trees(items@, i as int);
                    assert(json@ == JsonTree::List(trees));
                    lemma_printable_item(trees, 127, i as int);
                    lemma_printable_deeper(items@[i as int]@, 126);
                    assert(items@.take(i + 1).drop_last() == items@.take(i as int));
                }
                list.push(write_value(&items[i]));
                proof {
                    assert(list@.map_values(|v: Value| value_tree(v)) == before.map_values(
                        |v: Value| value_tree(v),
                    ).push(value_tree(list@.last())));
                }
                i += 1;
            }
            proof {
                assert(items@.take(items@.len() as int) == items@);
            }
            close_value(Node::List(list))
        },
        Json::Object(entries) => {
            let mut list: Vec<(String, Value)> = Vec::new();
            let mut i: usize = 0;
            while i < entries.len()
                invariant
                    i <= entries@.len(),
                    json == Json::Object(*entries),
                    json@.printable(127),
                    distinct_names(list@),
                    node_entries(list@) == entry_trees(entries@.take(i as int)),
                decreases entries@.len() - i,
            {
                let ghost before = list@;
                proof {
                    assert(entries@.take(i + 1).drop_last() == entries@.take(i as int));
                }
                if !has_name(&list, entries[i].0.as_str()) {
                    proof {
                        let members = entry_trees(entries@);
                        lemma_entry_stays(entries@, i + 1, entries@[i as int].0@);
                        assert(json@ == JsonTree::Object(members));
                        lemma_printable_member(members, 127, entries@[i as int].0@);
                        lemma_printable_deeper(entries@[i as int].1@, 126);
                        lemma_absent_everywhere(before, entries@[i as int].0@);
                    }
                    list.push((entries[i].0.clone(), write_value(&entries[i].1)));
                    proof {
                        assert(list@.drop_last() == before);
                    }
                }
                i += 1;
            }
            proof {
                assert(entries@.take(entries@.len() as int) == entries@);
            }
            close_value(Node::Object(list))
        },
    }
}

/// Prints a JSON value in the compact form.
pub fn print(json: &Json) -> (text: String)
    requires
        json@.printable(127),
    ensures
        as_json(text@) == printed(json@),
{
    value_to_string(&write_value(json))
}

} // verus!
