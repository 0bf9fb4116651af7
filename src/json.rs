//! JSON values as the library holds them, their mathematical model, and their
//! compact text.

use vstd::prelude::*;

verus! {

/// A JSON value.
#[derive(Debug, PartialEq, Eq)]
pub enum JsonValue {
    Null,
    Bool(bool),
    /// A number, held as its canonical decimal text.
    Number(String),
    Str(String),
    Array(Vec<JsonValue>),
    Object(JsonObject),
}

/// A JSON object: its members in the object's own order.
#[derive(Debug, PartialEq, Eq)]
pub struct JsonObject {
    pub entries: Vec<(String, JsonValue)>,
}

/// The model of a JSON value.
pub enum Json {
    Null,
    Bool(bool),
    Number(Seq<char>),
    Str(Seq<char>),
    Array(Seq<Json>),
    Object(Seq<(Seq<char>, Json)>),
}

/// The model of a value.
pub open spec fn json_view(v: JsonValue) -> Json
    decreases v,
{
    match v {
        JsonValue::Null => Json::Null,
        JsonValue::Bool(b) => Json::Bool(b),
        JsonValue::Number(t) => Json::Number(t@),
        JsonValue::Str(s) => Json::Str(s@),
        JsonValue::Array(a) => Json::Array(list_view(a@)),
        JsonValue::Object(o) => Json::Object(members_view(o.entries@)),
    }
}

/// The models of a sequence of values.
pub open spec fn list_view(items: Seq<JsonValue>) -> Seq<Json>
    decreases items,
{
    if items.len() == 0 {
        seq![]
    } else {
        list_view(items.subrange(0, items.len() - 1)).push(json_view(items[items.len() - 1]))
    }
}

/// The models of the members of an object.
pub open spec fn members_view(entries: Seq<(String, JsonValue)>) -> Seq<(Seq<char>, Json)>
    decreases entries,
{
    if entries.len() == 0 {
        seq![]
    } else {
        let last = entries[entries.len() - 1];
        members_view(entries.subrange(0, entries.len() - 1)).push((last.0@, json_view(last.1)))
    }
}

impl View for JsonValue {
    type V = Json;

    open spec fn view(&self) -> Json {
        json_view(*self)
    }
}

impl View for JsonObject {
    type V = Seq<(Seq<char>, Json)>;

    open spec fn view(&self) -> Seq<(Seq<char>, Json)> {
        members_view(self.entries@)
    }
}

/// The model of a sequence of values has one model per value, in order.
pub proof fn lemma_list_view(items: Seq<JsonValue>)
    ensures
        list_view(items).len() == items.len(),
        forall|i: int| 0 <= i < items.len() ==> #[trigger] list_view(items)[i] == json_view(items[i]),
    decreases items.len(),
{
    if items.len() > 0 {
        let init = items.subrange(0, items.len() - 1);
        lemma_list_view(init);
        assert forall|i: int| 0 <= i < items.len() implies #[trigger] list_view(items)[i] == json_view(
            items[i],
        ) by {
            if i < items.len() - 1 {
                assert(init[i] == items[i]);
            }
        }
    }
}

/// The model of an object's members has one model per member, in order.
pub proof fn lemma_members_view(entries: Seq<(String, JsonValue)>)
    ensures
        members_view(entries).len() == entries.len(),
        forall|i: int|
            0 <= i < entries.len() ==> #[trigger] members_view(entries)[i] == (
                entries[i].0@,
                json_view(entries[i].1),
            ),
    decreases entries.len(),
{
    if entries.len() > 0 {
        let init = entries.subrange(0, entries.len() - 1);
        lemma_members_view(init);
        assert forall|i: int| 0 <= i < entries.len() implies #[trigger] members_view(entries)[i] == (
            entries[i].0@,
            json_view(entries[i].1),
        ) by {
            if i < entries.len() - 1 {
                assert(init[i] == entries[i]);
            }
        }
    }
}

/// The lower-case hexadecimal digits.
pub open spec fn hex_digits() -> Seq<char> {
    seq!['0', '1', '2', '3', '4', '5', '6', '7', '8', '9', 'a', 'b', 'c', 'd', 'e', 'f']
}

/// How one character is written inside a JSON string literal: `"` and `\`
/// behind a backslash, the controls with a short escape as such, the other
/// characters below U+0020 as `\u00xx`, and every other character as itself.
pub open spec fn escaped_char(c: char) -> Seq<char> {
    let u = c as u32;
    if c == '"' {
        seq!['\\', '"']
    } else if c == '\\' {
        seq!['\\', '\\']
    } else if u == 0x08 {
        seq!['\\', 'b']
    } else if u == 0x09 {
        seq!['\\', 't']
    } else if u == 0x0a {
        seq!['\\', 'n']
    } else if u == 0x0c {
        seq!['\\', 'f']
    } else if u == 0x0d {
        seq!['\\', 'r']
    } else if u < 0x20 {
        seq!['\\', 'u', '0', '0', hex_digits()[(u / 16) as int], hex_digits()[(u % 16) as int]]
    } else {
        seq![c]
    }
}

/// The characters of `s`, each escaped for a JSON string literal.
pub open spec fn escaped(s: Seq<char>) -> Seq<char>
    decreases s.len(),
{
    if s.len() == 0 {
        seq![]
    } else {
        escaped(s.drop_last()) + escaped_char(s.last())
    }
}

/// The JSON string literal for `s`, quotes and escapes included, as
/// serde_json writes it.
pub open spec fn json_quoted(s: Seq<char>) -> Seq<char> {
    seq!['"'] + escaped(s) + seq!['"']
}

/// Relies on serde_json::to_string on a string slice: the JSON string literal
/// for `s`, escaped by serde_json's escape table. Writing a string into memory
/// cannot fail.
#[verifier::external_body]
fn quote(s: &str) -> (r: String)
    ensures
        r@ == json_quoted(s@),
{
    serde_json::to_string(s).unwrap_or_default()
}

/// The text `null`.
pub open spec fn null_text() -> Seq<char> {
    seq!['n', 'u', 'l', 'l']
}

/// The text `true`.
pub open spec fn true_text() -> Seq<char> {
    seq!['t', 'r', 'u', 'e']
}

/// The text `false`.
pub open spec fn false_text() -> Seq<char> {
    seq!['f', 'a', 'l', 's', 'e']
}

/// The compact JSON text of a value: no white space between tokens, members
/// in the object's own order.
pub open spec fn json_text(j: Json) -> Seq<char>
    decreases j,
{
    match j {
        Json::Null => null_text(),
        Json::Bool(b) => if b {
            true_text()
        } else {
            false_text()
        },
        Json::Number(t) => t,
        Json::Str(s) => json_quoted(s),
        Json::Array(items) => seq!['['] + items_text(items) + seq![']'],
        Json::Object(members) => seq!['{'] + members_text(members) + seq!['}'],
    }
}

/// The texts of `items`, separated by commas.
pub open spec fn items_text(items: Seq<Json>) -> Seq<char>
    decreases items,
{
    if items.len() == 0 {
        seq![]
    } else if items.len() == 1 {
        json_text(items[0])
    } else {
        items_text(items.subrange(0, items.len() - 1)) + seq![','] + json_text(
            items[items.len() - 1],
        )
    }
}

/// The texts of `members` as `"key":value`, separated by commas.
pub open spec fn members_text(members: Seq<(Seq<char>, Json)>) -> Seq<char>
    decreases members,
{
    if members.len() == 0 {
        seq![]
    } else if members.len() == 1 {
        json_quoted(members[0].0) + seq![':'] + json_text(members[0].1)
    } else {
        let last = members[members.len() - 1];
        members_text(members.subrange(0, members.len() - 1)) + seq![','] + json_quoted(last.0)
            + seq![':'] + json_text(last.1)
    }
}

/// Appends the compact JSON text of `v` to `out`.
pub fn write_json(v: &JsonValue, out: &mut String)
    ensures
        final(out)@ == old(out)@ + json_text(v@),
    decreases v,
{
    proof {
        reveal_strlit("null");
        reveal_strlit("true");
        reveal_strlit("false");
        reveal_strlit("[");
        reveal_strlit("]");
        reveal_strlit("{");
        reveal_strlit("}");
        reveal_strlit(",");
        reveal_strlit(":");
    }
    match v {
        JsonValue::Null => out.append("null"),
        JsonValue::Bool(b) => {
            if *b {
                out.append("true")
            } else {
                out.append("false")
            }
        },
        JsonValue::Number(t) => out.append(t.as_str()),
        JsonValue::Str(s) => {
            let q = quote(s.as_str());
            out.append(q.as_str());
        },
        JsonValue::Array(a) => {
            proof {
                lemma_list_view(a@);
            }
            let ghost items = list_view(a@);
            let ghost start = out@;
            out.append("[");
            let n = a.len();
            let mut i: usize = 0;
            while i < n
                invariant
                    *v == JsonValue::Array(*a),
                    n == a@.len(),
                    i <= n,
                    items == list_view(a@),
                    items.len() == n,
                    forall|k: int| 0 <= k < n ==> #[trigger] items[k] == json_view(a@[k]),
                    out@ == start + seq!['['] + items_text(items.subrange(0, i as int)),
                decreases n - i,
            {
                proof {
                    reveal_strlit(",");
                    assert(decreases_to!(*v => v->Array_0));
                    assert(decreases_to!(v->Array_0 => v->Array_0@));
                    assert(decreases_to!(v->Array_0@ => v->Array_0@[i as int]));
                }
                if i > 0 {
                    out.append(",");
                }
                write_json(&a[i], out);
                assert(items.subrange(0, i + 1).subrange(0, i as int) =~= items.subrange(
                    0,
                    i as int,
                ));
                assert(items.subrange(0, i + 1)[i as int] == items[i as int]);
                assert(out@ =~= start + seq!['['] + items_text(items.subrange(0, i + 1)));
                i = i + 1;
            }
            out.append("]");
            assert(items.subrange(0, n as int) =~= items);
            assert(v@ == Json::Array(items));
            assert(out@ =~= start + json_text(v@));
        },
        JsonValue::Object(o) => {
            proof {
                lemma_members_view(o.entries@);
            }
            let ghost members = members_view(o.entries@);
            let ghost start = out@;
            out.append("{");
            let n = o.entries.len();
            let mut i: usize = 0;
            while i < n
                invariant
                    *v == JsonValue::Object(*o),
                    n == o.entries@.len(),
                    i <= n,
                    members == members_view(o.entries@),
                    members.len() == n,
                    forall|k: int|
                        0 <= k < n ==> #[trigger] members[k] == (
                            o.entries@[k].0@,
                            json_view(o.entries@[k].1),
                        ),
                    out@ == start + seq!['{'] + members_text(members.subrange(0, i as int)),
                decreases n - i,
            {
                proof {
                    reveal_strlit(",");
                    reveal_strlit(":");
                    let entries = v->Object_0.entries;
                    assert(decreases_to!(*v => v->Object_0));
                    assert(decreases_to!(v->Object_0 => entries));
                    assert(decreases_to!(entries => entries@));
                    assert(decreases_to!(entries@ => entries@[i as int]));
                    assert(decreases_to!(entries@[i as int] => entries@[i as int].1));
                }
                if i > 0 {
                    out.append(",");
                }
                let entry = &o.entries[i];
                let q = quote(entry.0.as_str());
                out.append(q.as_str());
                out.append(":");
                write_json(&entry.1, out);
                assert(members.subrange(0, i + 1).subrange(0, i as int) =~= members.subrange(
                    0,
                    i as int,
                ));
                assert(members.subrange(0, i + 1)[i as int] == members[i as int]);
                assert(out@ =~= start + seq!['{'] + members_text(members.subrange(0, i + 1)));
                i = i + 1;
            }
            out.append("}");
            assert(members.subrange(0, n as int) =~= members);
            assert(v@ == Json::Object(members));
            assert(out@ =~= start + json_text(v@));
        },
    }
}

/// The compact JSON text of `v`.
pub fn to_json_text(v: &JsonValue) -> (r: String)
    ensures
        r@ == json_text(v@),
{
    let mut out = String::new();
    write_json(v, &mut out);
    assert(out@ =~= json_text(v@));
    out
}

} // verus!
