//! JSON values as the plugin reads and writes them.
use vstd::prelude::*;

use crate::text::same_text;

verus! {

/// What a JSON value says, with the members of an object as a map.
///
/// A number carries the integer that it denotes, or `None` where it denotes none that fits
/// an `i64`.
pub enum JsonTree {
    Null,
    Bool(bool),
    Number(Option<i64>),
    Text(Seq<char>),
    List(Seq<JsonTree>),
    Object(Map<Seq<char>, JsonTree>),
}

impl JsonTree {
    /// The member called `key`; `None` where there is none or where this is no object.
    pub open spec fn get(self, key: Seq<char>) -> Option<JsonTree> {
        match self {
            JsonTree::Object(members) => if members.dom().contains(key) {
                Some(members[key])
            } else {
                None
            },
            _ => None,
        }
    }

    /// The characters of a string; `None` for any other value.
    pub open spec fn text(self) -> Option<Seq<char>> {
        match self {
            JsonTree::Text(chars) => Some(chars),
            _ => None,
        }
    }

    /// The integer that a number denotes; `None` for any other value.
    pub open spec fn integer(self) -> Option<i64> {
        match self {
            JsonTree::Number(n) => n,
            _ => None,
        }
    }

    /// Every number in the value is an `i64`, and no more than `depth` lists and objects are
    /// nested in one another.
    pub open spec fn printable(self, depth: nat) -> bool
        decreases depth,
    {
        match self {
            JsonTree::Number(n) => n is Some,
            JsonTree::List(items) => depth > 0 && forall|i: int|
                0 <= i < items.len() ==> (#[trigger] items[i]).printable((depth - 1) as nat),
            JsonTree::Object(members) => depth > 0 && forall|key: Seq<char>|
                members.dom().contains(key) ==> (#[trigger] members[key]).printable(
                    (depth - 1) as nat,
                ),
            _ => true,
        }
    }
}

/// A JSON value.
///
/// The members of an object stand in a list. Of several members with one name the first
/// counts.
#[derive(Debug, PartialEq, Eq)]
pub enum Json {
    Null,
    Bool(bool),
    Number(Option<i64>),
    Text(String),
    List(Vec<Json>),
    Object(Vec<(String, Json)>),
}

impl Json {
    /// What the value says.
    pub open spec fn tree(self) -> JsonTree
        decreases self,
    {
        match self {
            Json::Null => JsonTree::Null,
            Json::Bool(b) => JsonTree::Bool(b),
            Json::Number(n) => JsonTree::Number(n),
            Json::Text(s) => JsonTree::Text(s@),
            Json::List(items) => JsonTree::List(list_trees(items@)),
            Json::Object(entries) => JsonTree::Object(entry_trees(entries@)),
        }
    }
}

impl View for Json {
    type V = JsonTree;

    open spec fn view(&self) -> JsonTree {
        self.tree()
    }
}

/// What each item of a list says.
pub open spec fn list_trees(items: Seq<Json>) -> Seq<JsonTree>
    decreases items,
{
    if items.len() == 0 {
        seq![]
    } else {
        list_trees(items.drop_last()).push(items.last().tree())
    }
}

/// The members of an object, given by a list in which the first of equal names counts.
pub open spec fn entry_trees(entries: Seq<(String, Json)>) -> Map<Seq<char>, JsonTree>
    decreases entries,
{
    if entries.len() == 0 {
        Map::empty()
    } else {
        let earlier = entry_trees(entries.drop_last());
        let (key, value) = entries.last();
        if earlier.dom().contains(key@) {
            earlier
        } else {
            earlier.insert(key@, value.tree())
        }
    }
}

/// Item `i` of a list says what its place in `list_trees` says.
pub proof fn lemma_list_trees(items: Seq<Json>, i: int)
    requires
        0 <= i < items.len(),
    ensures
        list_trees(items).len() == items.len(),
        list_trees(items)[i] == items[i]@,
    decreases items.len(),
{
    reveal_with_fuel(list_trees, 2);
    if i < items.len() - 1 {
        lemma_list_trees(items.drop_last(), i);
    } else if i > 0 {
        lemma_list_trees(items.drop_last(), 0);
    }
}

/// A member that the first `n` entries give is a member, and the same one, of them all.
pub proof fn lemma_entry_stays(entries: Seq<(String, Json)>, n: int, key: Seq<char>)
    requires
        0 <= n <= entries.len(),
        entry_trees(entries.take(n)).dom().contains(key),
    ensures
        entry_trees(entries).dom().contains(key),
        entry_trees(entries)[key] == entry_trees(entries.take(n))[key],
    decreases entries.len() - n,
{
    if n == entries.len() {
        assert(entries.take(n) == entries);
    } else {
        assert(entries.take(n + 1).drop_last() == entries.take(n));
        lemma_entry_stays(entries, n + 1, key);
    }
}

/// The members that a longer list adds leave the first ones as they are.
pub proof fn lemma_first_entry_counts(entries: Seq<(String, Json)>, i: int)
    requires
        0 <= i < entries.len(),
        forall|j: int| 0 <= j < i ==> (#[trigger] entries[j]).0@ != entries[i].0@,
    ensures
        entry_trees(entries).dom().contains(entries[i].0@),
        entry_trees(entries)[entries[i].0@] == entries[i].1.tree(),
    decreases entries.len(),
{
    let last = entries.len() - 1;
    let shorter = entries.drop_last();
    if i < last {
        assert forall|j: int| 0 <= j < i implies (#[trigger] shorter[j]).0@ != shorter[i].0@ by {
            assert(shorter[j] == entries[j]);
        }
        lemma_first_entry_counts(shorter, i);
    } else {
        assert forall|j: int| 0 <= j < shorter.len() implies (#[trigger] shorter[j]).0@
            != entries[i].0@ by {
            assert(shorter[j] == entries[j]);
        }
        lemma_no_entry(shorter, entries[i].0@);
    }
}

/// A name that no entry has is no member.
pub proof fn lemma_no_entry(entries: Seq<(String, Json)>, key: Seq<char>)
    requires
        forall|j: int| 0 <= j < entries.len() ==> (#[trigger] entries[j]).0@ != key,
    ensures
        !entry_trees(entries).dom().contains(key),
    decreases entries.len(),
{
    if entries.len() > 0 {
        let shorter = entries.drop_last();
        assert forall|j: int| 0 <= j < shorter.len() implies (#[trigger] shorter[j]).0@ != key by {
            assert(shorter[j] == entries[j]);
        }
        lemma_no_entry(shorter, key);
        assert(entries.last() == entries[entries.len() - 1]);
    }
}

impl Json {
    /// The member of an object called `key`.
    pub fn get(&self, key: &str) -> (member: Option<&Json>)
        ensures
            match member {
                Some(value) => self@.get(key@) == Some(value@),
                None => self@.get(key@) is None,
            },
    {
        if let Json::Object(entries) = self {
            let mut i: usize = 0;
            while i < entries.len()
                invariant
                    i <= entries@.len(),
                    forall|j: int| 0 <= j < i ==> (#[trigger] entries@[j]).0@ != key@,
                    self == Json::Object(*entries),
                decreases entries@.len() - i,
            {
                if same_text(entries[i].0.as_str(), key) {
                    proof {
                        lemma_first_entry_counts(entries@, i as int);
                    }
                    return Some(&entries[i].1);
                }
                i += 1;
            }
            proof {
                lemma_no_entry(entries@, key@);
            }
        }
        None
    }

    /// The characters of a string.
    pub fn as_str(&self) -> (text: Option<&str>)
        ensures
            match text {
                Some(s) => self@.text() == Some(s@),
                None => self@.text() is None,
            },
    {
        match self {
            Json::Text(s) => Some(s.as_str()),
            _ => None,
        }
    }

    /// The integer that a number denotes.
    pub fn as_i64(&self) -> (number: Option<i64>)
        ensures
            number == self@.integer(),
    {
        match self {
            Json::Number(n) => *n,
            _ => None,
        }
    }
}

} // verus!
