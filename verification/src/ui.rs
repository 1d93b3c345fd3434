//! The components that the plugin shows, and the other JSON texts that it hands to its host.
use vstd::prelude::*;

use crate::document::{as_json, print, printed};
use crate::json::{entry_trees, list_trees, Json, JsonTree};

verus! {

/// A list with one component in it.
pub open spec fn single(component: Map<Seq<char>, JsonTree>) -> JsonTree {
    JsonTree::List(seq![JsonTree::Object(component)])
}

/// A terminal of `cols` by `rows` characters, bound to a handle.
pub open spec fn terminal_tree(handle: i32, cols: i32, rows: i32) -> JsonTree {
    single(
        map![
            "type"@ => JsonTree::Text("terminal"@),
            "handle"@ => JsonTree::Number(Some(handle as i64)),
            "cols"@ => JsonTree::Number(Some(cols as i64)),
            "rows"@ => JsonTree::Number(Some(rows as i64)),
        ],
    )
}

/// A label.
pub open spec fn label_tree(text: Seq<char>) -> JsonTree {
    single(map!["type"@ => JsonTree::Text("label"@), "text"@ => JsonTree::Text(text)])
}

/// A list of strings.
pub open spec fn strings_tree(strings: Seq<Seq<char>>) -> JsonTree {
    JsonTree::List(strings.map_values(|chars: Seq<char>| JsonTree::Text(chars)))
}

/// The characters of each string of a list.
pub open spec fn texts(strings: Seq<String>) -> Seq<Seq<char>> {
    strings.map_values(|s: String| s@)
}

/// An object whose members are strings; of equal names the first counts.
pub open spec fn pairs_map(pairs: Seq<(String, String)>) -> Map<Seq<char>, JsonTree>
    decreases pairs.len(),
{
    if pairs.len() == 0 {
        Map::empty()
    } else {
        let earlier = pairs_map(pairs.drop_last());
        let (key, value) = pairs.last();
        if earlier.dom().contains(key@) {
            earlier
        } else {
            earlier.insert(key@, JsonTree::Text(value@))
        }
    }
}

/// An object of scalars in a list is printable.
proof fn lemma_single_is_printable(component: Map<Seq<char>, JsonTree>)
    requires
        forall|key: Seq<char>| #[trigger]
            component.dom().contains(key) ==> match component[key] {
                JsonTree::Text(_) => true,
                JsonTree::Number(n) => n is Some,
                _ => false,
            },
    ensures
        single(component).printable(127),
{
    let object = JsonTree::Object(component);
    assert forall|key: Seq<char>| component.dom().contains(key) implies (
    #[trigger] component[key]).printable(125) by {
        assert(component.dom().contains(key));
    }
    assert(object.printable(126));
    assert(seq![object][0].printable(126));
}

/// Prints a list with one component in it.
fn print_single(entries: Vec<(String, Json)>) -> (text: String)
    requires
        forall|key: Seq<char>| #[trigger]
            entry_trees(entries@).dom().contains(key) ==> match entry_trees(entries@)[key] {
                JsonTree::Text(_) => true,
                JsonTree::Number(n) => n is Some,
                _ => false,
            },
    ensures
        as_json(text@) == printed(single(entry_trees(entries@))),
{
    let ghost component = entry_trees(entries@);
    let object = Json::Object(entries);
    let items: Vec<Json> = vec![object];
    proof {
        reveal_with_fuel(list_trees, 2);
        assert(items@.drop_last() =~= seq![]);
        assert(list_trees(items@) =~= seq![JsonTree::Object(component)]);
        lemma_single_is_printable(component);
    }
    print(&Json::List(items))
}

/// The JSON text of a terminal component.
pub fn terminal_ui(handle: i32, cols: i32, rows: i32) -> (text: String)
    ensures
        as_json(text@) == printed(terminal_tree(handle, cols, rows)),
{
    let entries: Vec<(String, Json)> = vec![
        ("type".to_owned(), Json::Text("terminal".to_owned())),
        ("handle".to_owned(), Json::Number(Some(handle as i64))),
        ("cols".to_owned(), Json::Number(Some(cols as i64))),
        ("rows".to_owned(), Json::Number(Some(rows as i64))),
    ];
    proof {
        reveal_strlit("type");
        reveal_strlit("handle");
        reveal_strlit("cols");
        reveal_strlit("rows");
        assert("type"@[0] != "cols"@[0]);
        assert("type"@[0] != "rows"@[0]);
        assert("cols"@[0] != "rows"@[0]);
        let all = entries@;
        reveal_with_fuel(entry_trees, 5);
        assert(all.drop_last() =~= all.take(3));
        assert(all.take(3).drop_last() =~= all.take(2));
        assert(all.take(2).drop_last() =~= all.take(1));
        assert(all.take(1).drop_last() =~= all.take(0));
        assert(single(entry_trees(all)) == terminal_tree(handle, cols, rows)) by {
            assert(entry_trees(all) =~= terminal_tree(handle, cols, rows)->List_0[0]->Object_0);
        }
    }
    print_single(entries)
}

/// The JSON text of a label component.
pub fn label_ui(label: String) -> (text: String)
    ensures
        as_json(text@) == printed(label_tree(label@)),
{
    let entries: Vec<(String, Json)> = vec![
        ("type".to_owned(), Json::Text("label".to_owned())),
        ("text".to_owned(), Json::Text(label)),
    ];
    proof {
        reveal_strlit("type");
        reveal_strlit("text");
        assert("type"@[1] != "text"@[1]);
        let all = entries@;
        reveal_with_fuel(entry_trees, 3);
        assert(all.drop_last() =~= all.take(1));
        assert(all.take(1).drop_last() =~= all.take(0));
        assert(entry_trees(all) =~= label_tree(label@)->List_0[0]->Object_0);
    }
    print_single(entries)
}

/// The JSON text of a list of strings.
pub fn strings_json(strings: &Vec<String>) -> (text: String)
    ensures
        as_json(text@) == printed(strings_tree(texts(strings@))),
{
    let mut items: Vec<Json> = Vec::new();
    let mut i: usize = 0;
    let ghost trees = texts(strings@).map_values(|chars: Seq<char>| JsonTree::Text(chars));
    while i < strings.len()
        invariant
            i <= strings@.len(),
            trees == texts(strings@).map_values(|chars: Seq<char>| JsonTree::Text(chars)),
            list_trees(items@) == trees.take(i as int),
        decreases strings@.len() - i,
    {
        let ghost before = items@;
        items.push(Json::Text(strings[i].clone()));
        proof {
            assert(items@.drop_last() =~= before);
            assert(items@.last().tree() == trees[i as int]);
            assert(trees.take(i + 1) =~= trees.take(i as int).push(trees[i as int]));
        }
        i += 1;
    }
    proof {
        assert(trees.take(trees.len() as int) =~= trees);
        assert forall|k: int| 0 <= k < trees.len() implies (#[trigger] trees[k]).printable(126) by {
        }
        assert(JsonTree::List(trees).printable(127));
    }
    print(&Json::List(items))
}

/// The JSON text of an object whose members are strings.
pub fn pairs_json(pairs: &Vec<(String, String)>) -> (text: String)
    ensures
        as_json(text@) == printed(JsonTree::Object(pairs_map(pairs@))),
{
    let mut entries: Vec<(String, Json)> = Vec::new();
    let mut i: usize = 0;
    let ghost all = pairs@;
    while i < pairs.len()
        invariant
            i <= pairs@.len(),
            all == pairs@,
            entry_trees(entries@) == pairs_map(all.take(i as int)),
        decreases pairs@.len() - i,
    {
        let ghost before = entries@;
        entries.push((pairs[i].0.clone(), Json::Text(pairs[i].1.clone())));
        proof {
            assert(entries@.drop_last() =~= before);
            assert(entries@.last().1.tree() == JsonTree::Text(all[i as int].1@));
            assert(all.take(i + 1).drop_last() =~= all.take(i as int));
        }
        i += 1;
    }
    proof {
        assert(all.take(all.len() as int) =~= all);
        lemma_pairs_are_texts(all);
        let members = pairs_map(all);
        assert forall|key: Seq<char>| members.dom().contains(key) implies (
        #[trigger] members[key]).printable(126) by {
            assert(members.dom().contains(key));
        }
        assert(JsonTree::Object(members).printable(127));
    }
    print(&Json::Object(entries))
}

/// The members of such an object are strings.
proof fn lemma_pairs_are_texts(pairs: Seq<(String, String)>)
    ensures
        forall|key: Seq<char>| #[trigger]
            pairs_map(pairs).dom().contains(key) ==> pairs_map(pairs)[key] is Text,
    decreases pairs.len(),
{
    if pairs.len() > 0 {
        lemma_pairs_are_texts(pairs.drop_last());
    }
}

} // verus!
