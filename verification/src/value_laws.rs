//! What holds of the plain values: JSON, numbers and the texts that are handed to the host.
use vstd::prelude::*;
use vstd::utf8::{encode_utf8, valid_utf8};

use crate::action_laws::unchanged;
use crate::armor::{base64_text, decode, law_base64_is_read_back};
use crate::document::{json_parse, json_text, parse, print, read_value, value_tree};
use crate::host::{log, log_text, HostCall};
use crate::json::{
    entry_trees, lemma_first_entry_counts, lemma_list_trees, lemma_no_entry, list_trees, Json,
    JsonTree,
};
use crate::number::{
    append_decimal, append_integer, decimal, digit_value, integer_text, is_digit, lemma_decimal,
    parse_u16, u16_of, unsigned_part, value,
};
use crate::plugin::{server_url, sidecar_started, start_sidecar, Plugin};
use crate::text::{decoded, replaced_text, same_text};
use crate::ui::{label_ui, pairs_json, pairs_map, strings_json, terminal_ui, texts};

verus! {

/// Texts are the same exactly where their characters are.
pub proof fn law_same_text(a: &str, b: &str, same: bool)
    requires
        call_ensures(same_text, (a, b), same),
    ensures
        same <==> a@.len() == b@.len() && forall|i: int| 0 <= i < a@.len() ==> a@[i] == b@[i],
{
    if a@.len() == b@.len() && (forall|i: int| 0 <= i < a@.len() ==> a@[i] == b@[i]) {
        assert(a@ =~= b@);
    }
}

/// The encoding of a text is decoded to the text, and decoding any UTF-8 keeps every byte.
pub proof fn law_text_is_decoded(chars: Seq<char>, bytes: Seq<u8>)
    ensures
        decoded(encode_utf8(chars)) == chars,
        valid_utf8(bytes) ==> encode_utf8(decoded(bytes)) == bytes,
        !valid_utf8(bytes) ==> decoded(bytes) == replaced_text(bytes),
{
    vstd::utf8::encode_utf8_valid_utf8(chars);
    vstd::utf8::encode_utf8_decode_utf8(chars);
    if valid_utf8(bytes) {
        vstd::utf8::decode_utf8_encode_utf8(bytes);
    }
}

/// An object has the members that are in it, and nothing else has any.
pub proof fn law_members(tree: JsonTree, key: Seq<char>)
    ensures
        match tree {
            JsonTree::Object(members) => if members.dom().contains(key) {
                tree.get(key) == Some(members[key])
            } else {
                tree.get(key) is None
            },
            _ => tree.get(key) is None,
        },
        match tree {
            JsonTree::Text(chars) => tree.text() == Some(chars),
            _ => tree.text() is None,
        },
        match tree {
            JsonTree::Number(Some(n)) => tree.integer() == Some(n),
            _ => tree.integer() is None,
        },
{
}

/// A value says what it holds; of the entries of an object with one name, the first.
pub proof fn law_values_say_what_they_hold(json: Json)
    ensures
        match json {
            Json::Null => json@ == JsonTree::Null,
            Json::Bool(b) => json@ == JsonTree::Bool(b),
            Json::Number(n) => json@ == JsonTree::Number(n),
            Json::Text(s) => json@ == JsonTree::Text(s@),
            Json::List(items) => json@ is List && json@->List_0.len() == items@.len() && forall|
                i: int,
            |
                0 <= i < items@.len() ==> json@->List_0[i] == (#[trigger] items@[i])@,
            Json::Object(entries) => json@ is Object,
        },
{
    if let Json::List(items) = json {
        assert(json@ == JsonTree::List(list_trees(items@)));
        if items@.len() > 0 {
            lemma_list_trees(items@, 0);
        }
        assert forall|i: int| 0 <= i < items@.len() implies list_trees(items@)[i] == (
        #[trigger] items@[i])@ by {
            lemma_list_trees(items@, i);
        }
    }
}

/// The member of an object is the first entry with its name, and where no entry has the name
/// there is no member.
pub proof fn law_first_entry_is_the_member(entries: Vec<(String, Json)>, key: Seq<char>, i: int)
    requires
        0 <= i <= entries@.len(),
        forall|j: int| 0 <= j < i ==> (#[trigger] entries@[j]).0@ != key,
        i < entries@.len() ==> entries@[i].0@ == key,
    ensures
        i < entries@.len() ==> Json::Object(entries)@.get(key) == Some(entries@[i].1@),
        i == entries@.len() ==> Json::Object(entries)@.get(key) is None,
{
    let json = Json::Object(entries);
    assert(json@ == JsonTree::Object(entry_trees(entries@)));
    if i < entries@.len() {
        lemma_first_entry_counts(entries@, i);
    } else {
        lemma_no_entry(entries@, key);
    }
}

/// Reading a member, a string or an integer gives what the value says.
pub proof fn law_readers(
    json: &Json,
    key: &str,
    member: Option<&Json>,
    text: Option<&str>,
    number: Option<i64>,
)
    requires
        call_ensures(Json::get, (json, key), member),
        call_ensures(Json::as_str, (json,), text),
        call_ensures(Json::as_i64, (json,), number),
    ensures
        match (json@, member) {
            (JsonTree::Object(members), Some(found)) => members.dom().contains(key@)
                && members[key@] == found@,
            (JsonTree::Object(members), None) => !members.dom().contains(key@),
            (_, _) => member is None,
        },
        match (json@, text) {
            (JsonTree::Text(chars), Some(found)) => chars == found@,
            (JsonTree::Text(_), None) => false,
            (_, _) => text is None,
        },
        match json@ {
            JsonTree::Number(n) => number == n,
            _ => number is None,
        },
{
}

/// A text is read as what it says, and what a value says is printed and read back.
pub proof fn law_json_text(
    text: &str,
    read: Option<Json>,
    json: &Json,
    printed: String,
    value: serde_json::Value,
    opened: Json,
)
    requires
        call_ensures(parse, (text,), read),
        call_ensures(print, (json,), printed),
        call_ensures(read_value, (value,), opened),
    ensures
        read is Some <==> json_parse(text@) is Some,
        read is Some ==> json_parse(text@) == Some(read->0@),
        printed@ == json_text(json@),
        json_parse(printed@) == Some(json@),
        opened@ == value_tree(value),
{
}

/// A text is read as the bytes that it stands for, and refused where it stands for none.
pub proof fn law_base64_is_decoded(text: &str, bytes: Option<Vec<u8>>, other: Seq<u8>)
    requires
        call_ensures(decode, (text,), bytes),
    ensures
        bytes is Some ==> text@ == base64_text(bytes->0@),
        text@ == base64_text(other) ==> bytes is Some && bytes->0@ == other,
{
    law_base64_is_read_back(other, text@);
    if bytes is Some {
        law_base64_is_read_back(bytes->0@, text@);
    }
}

/// Number by number: a digit is printed as itself, and a digit more stands behind the others.
pub proof fn law_decimal(n: nat, d: nat)
    requires
        d < 10,
    ensures
        decimal(d).len() == 1,
        decimal(d)[0] as int == '0' as int + d,
        n > 0 ==> decimal(10 * n + d) == decimal(n) + decimal(d),
        integer_text(n as int) == decimal(n),
        n > 0 ==> integer_text(-(n as int)) == seq!['-'] + decimal(n),
{
    if n > 0 {
        let m = 10 * n + d;
        assert(m / 10 == n && m % 10 == d);
        assert(decimal(m) =~= decimal(n) + decimal(d));
        reveal_strlit("-");
        assert("-"@ =~= seq!['-']);
    }
}

/// Different numbers are printed differently.
pub proof fn law_decimals_differ(n: nat, m: nat)
    requires
        decimal(n) == decimal(m),
    ensures
        n == m,
{
    lemma_decimal(n);
    lemma_decimal(m);
}

/// Numbers are put behind what is there.
pub proof fn law_numbers_are_appended(text: &mut String, n: u32, other: &mut String, m: i32)
    requires
        call_ensures(append_decimal, (text, n), ()),
        call_ensures(append_integer, (other, m), ()),
    ensures
        final(text)@ == old(text)@ + decimal(n as nat),
        m >= 0 ==> final(other)@ == old(other)@ + decimal(m as nat),
        m < 0 ==> final(other)@ == old(other)@ + (seq!['-'] + decimal((-m) as nat)),
{
    reveal_strlit("-");
    assert("-"@ =~= seq!['-']);
}

/// Character by character: a port is a row of digits, perhaps after a plus sign, that grows with
/// every digit as long as it is below 65536; anything else spoils it for good.
pub proof fn law_port_grows(s: Seq<char>, c: char)
    ensures
        u16_of(Seq::<char>::empty()) is None,
        !('0' <= c <= '9') ==> u16_of(s.push(c)) is None,
        '0' <= c <= '9' && (s.len() == 0 || s == seq!['+']) ==> u16_of(s.push(c)) == Some(
            (c as int - '0' as int) as u16,
        ),
        '0' <= c <= '9' && s.len() > 0 && s != seq!['+'] ==> match u16_of(s) {
            Some(n) => if 10 * n + (c as int - '0' as int) <= 65535 {
                u16_of(s.push(c)) == Some((10 * n + (c as int - '0' as int)) as u16)
            } else {
                u16_of(s.push(c)) is None
            },
            None => u16_of(s.push(c)) is None,
        },
{
    let digits = unsigned_part(s);
    let longer = s.push(c);
    if s.len() > 0 {
        assert(unsigned_part(longer) =~= digits.push(c));
        assert(longer[0] == s[0]);
    }
    assert(digits.push(c).drop_last() =~= digits);
    assert(digits.push(c).last() == c);
    assert(value(digits.push(c)) == value(digits) * 10 + digit_value(c));
    if '0' <= c <= '9' {
        if s.len() == 0 {
            assert(digits =~= seq![]);
            assert(longer =~= seq![c]);
            assert(unsigned_part(longer) =~= digits.push(c));
            assert forall|i: int| 0 <= i < digits.push(c).len() implies is_digit(
                #[trigger] digits.push(c)[i],
            ) by {}
            assert(value(digits) == 0);
        } else {
            if digits.len() == 0 {
                assert(s =~= seq!['+']);
                assert(value(digits) == 0);
            } else {
                assert(s != seq!['+']);
                if forall|i: int| 0 <= i < digits.len() ==> is_digit(#[trigger] digits[i]) {
                    assert forall|i: int| 0 <= i < digits.push(c).len() implies is_digit(
                        #[trigger] digits.push(c)[i],
                    ) by {
                        if i < digits.len() {
                            assert(is_digit(digits[i]));
                        }
                    }
                } else {
                    let k = choose|i: int| 0 <= i < digits.len() && !is_digit(#[trigger] digits[i]);
                    assert(!is_digit(digits.push(c)[k]));
                }
            }
        }
    } else {
        let all = unsigned_part(longer);
        if all.len() > 0 {
            assert(all.last() == c);
            assert(!is_digit(all[all.len() - 1]));
        }
    }
}

/// A number is read from the characters between two places.
pub proof fn law_number_is_read_in_place(
    chars: &Vec<char>,
    lo: usize,
    hi: usize,
    number: Option<u16>,
)
    requires
        call_ensures(parse_u16, (chars, lo, hi), number),
    ensures
        number == u16_of(chars@.subrange(lo as int, hi as int)),
{
}

/// The server is reached at its port on the local host, and its stream of events under that
/// address.
pub proof fn law_addresses(port: u16, url: String, stream: String)
    requires
        call_ensures(server_url, (port,), url),
        call_ensures(start_sidecar, (port,), stream),
    ensures
        url@ == "http://127.0.0.1:"@ + decimal(port as nat),
        stream@ == url@ + "/global/event"@,
{
}

/// The handle of the stream is kept where it is positive; nothing else changes.
pub proof fn law_open_stream_is_kept(plugin: &mut Plugin, handle: i32)
    requires
        call_ensures(sidecar_started, (plugin, handle), ()),
    ensures
        handle > 0 ==> final(plugin).sse_handle == handle,
        handle <= 0 ==> final(plugin).sse_handle == old(plugin).sse_handle,
        unchanged(
            Plugin { sse_handle: final(plugin).sse_handle, ..*old(plugin) },
            *final(plugin),
        ),
{
}

/// Nothing is open, and the terminal is 80 by 24, before anything has been started.
pub proof fn law_plugin_starts_idle(plugin: Plugin)
    requires
        call_ensures(Plugin::new, (), plugin),
    ensures
        plugin.pty_handle == -1,
        plugin.serve_handle == -1,
        plugin.sse_handle == -1,
        plugin.server_port == 0,
        plugin.cols == 80,
        plugin.rows == 24,
        plugin.line_buf@.len() == 0,
{
}

/// What is logged stands behind the plugin's mark.
pub proof fn law_log_lines(message: &str, line: String, call: HostCall)
    requires
        call_ensures(log_text, (message,), line),
        call_ensures(log, (message,), call),
    ensures
        line@ == "[opencode-plugin] "@ + message@,
        call matches HostCall::Log { line: logged } && logged@ == line@,
{
}

/// A text that `serde_json` prints of a value, and reads as that value again.
pub open spec fn prints(text: String, tree: JsonTree) -> bool {
    text@ == json_text(tree) && json_parse(text@) == Some(tree)
}

/// A terminal and a label are shown as a list of one component, with its type and what belongs
/// to it.
pub proof fn law_components(
    handle: i32,
    cols: i32,
    rows: i32,
    terminal: String,
    words: String,
    label: String,
)
    requires
        call_ensures(terminal_ui, (handle, cols, rows), terminal),
        call_ensures(label_ui, (words,), label),
    ensures
        prints(
            terminal,
            JsonTree::List(
                seq![
                    JsonTree::Object(
                        map![
                            "type"@ => JsonTree::Text("terminal"@),
                            "handle"@ => JsonTree::Number(Some(handle as i64)),
                            "cols"@ => JsonTree::Number(Some(cols as i64)),
                            "rows"@ => JsonTree::Number(Some(rows as i64)),
                        ],
                    ),
                ],
            ),
        ),
        prints(
            label,
            JsonTree::List(
                seq![
                    JsonTree::Object(
                        map![
                            "type"@ => JsonTree::Text("label"@),
                            "text"@ => JsonTree::Text(words@),
                        ],
                    ),
                ],
            ),
        ),
{
}

/// Strings are printed as a list of strings, in their order.
pub proof fn law_strings_are_a_list(strings: &Vec<String>, text: String, trees: Seq<JsonTree>)
    requires
        call_ensures(strings_json, (strings,), text),
        trees.len() == strings@.len(),
        forall|i: int|
            0 <= i < trees.len() ==> (#[trigger] trees[i]) == JsonTree::Text(strings@[i]@),
    ensures
        prints(text, JsonTree::List(trees)),
{
    assert(trees =~= texts(strings@).map_values(|chars: Seq<char>| JsonTree::Text(chars)));
}

/// The first of the pairs with a name gives the member with that name.
pub proof fn lemma_first_pair(pairs: Seq<(String, String)>, i: int)
    requires
        0 <= i < pairs.len(),
        forall|j: int| 0 <= j < i ==> (#[trigger] pairs[j]).0@ != pairs[i].0@,
    ensures
        pairs_map(pairs).dom().contains(pairs[i].0@),
        pairs_map(pairs)[pairs[i].0@] == JsonTree::Text(pairs[i].1@),
    decreases pairs.len(),
{
    let shorter = pairs.drop_last();
    if i < shorter.len() {
        assert forall|j: int| 0 <= j < i implies (#[trigger] shorter[j]).0@ != shorter[i].0@ by {
            assert(shorter[j] == pairs[j]);
        }
        lemma_first_pair(shorter, i);
    } else {
        assert forall|j: int| 0 <= j < shorter.len() implies (#[trigger] shorter[j]).0@
            != pairs[i].0@ by {
            assert(shorter[j] == pairs[j]);
        }
        lemma_no_pair(shorter, pairs[i].0@);
    }
}

/// A name that no pair has names no member.
pub proof fn lemma_no_pair(pairs: Seq<(String, String)>, key: Seq<char>)
    requires
        forall|j: int| 0 <= j < pairs.len() ==> (#[trigger] pairs[j]).0@ != key,
    ensures
        !pairs_map(pairs).dom().contains(key),
    decreases pairs.len(),
{
    if pairs.len() > 0 {
        let shorter = pairs.drop_last();
        assert forall|j: int| 0 <= j < shorter.len() implies (#[trigger] shorter[j]).0@ != key by {
            assert(shorter[j] == pairs[j]);
        }
        lemma_no_pair(shorter, key);
        assert(pairs.last() == pairs[pairs.len() - 1]);
    }
}

/// Pairs are printed as an object with the names of the pairs, each with the string of the first
/// pair that has the name.
pub proof fn law_pairs_are_an_object(
    pairs: &Vec<(String, String)>,
    text: String,
    key: Seq<char>,
    i: int,
)
    requires
        call_ensures(pairs_json, (pairs,), text),
        0 <= i <= pairs@.len(),
        forall|j: int| 0 <= j < i ==> (#[trigger] pairs@[j]).0@ != key,
        i < pairs@.len() ==> pairs@[i].0@ == key,
    ensures
        json_parse(text@) is Some,
        json_parse(text@)->0 is Object,
        text@ == json_text(json_parse(text@)->0),
        i < pairs@.len() ==> json_parse(text@)->0.get(key) == Some(JsonTree::Text(pairs@[i].1@)),
        i == pairs@.len() ==> json_parse(text@)->0.get(key) is None,
{
    if i < pairs@.len() {
        lemma_first_pair(pairs@, i);
    } else {
        lemma_no_pair(pairs@, key);
    }
}

} // verus!
