//! The manifest document as a value: a JSON tree whose objects keep their
//! on-disk field order, a verified pretty-printer that re-serializes it with
//! a detected indentation unit and trailing line ending, and the verified
//! field edits the repairs apply.

use vstd::prelude::*;
use vstd::relations::sorted_by;
use core::cmp::Ordering;
use crate::strutil::{spec_lex_cmp, lex_cmp_str, str_eq};
use vstd::seq::axiom_seq_index_decreases;

verus! {

/// A JSON document. Numbers keep their source text, so re-serializing
/// writes them back unchanged; objects keep field order.
pub enum JsonValue {
    Null,
    Bool(bool),
    Number(String),
    Text(String),
    Array(Vec<JsonValue>),
    Object(Vec<(String, JsonValue)>),
}

/// The lowercase hexadecimal digit for `d`.
pub open spec fn spec_hex_digit(d: int) -> char {
    if d == 0 { '0' }
    else if d == 1 { '1' }
    else if d == 2 { '2' }
    else if d == 3 { '3' }
    else if d == 4 { '4' }
    else if d == 5 { '5' }
    else if d == 6 { '6' }
    else if d == 7 { '7' }
    else if d == 8 { '8' }
    else if d == 9 { '9' }
    else if d == 10 { 'a' }
    else if d == 11 { 'b' }
    else if d == 12 { 'c' }
    else if d == 13 { 'd' }
    else if d == 14 { 'e' }
    else { 'f' }
}

/// How one character appears inside a JSON string literal: quotes and
/// backslashes escaped, the named control characters short-escaped, any
/// other control character as a `\u00..` escape, everything else as
/// itself.
pub open spec fn spec_escape_char(c: char) -> Seq<char> {
    if c == '"' {
        seq!['\\', '"']
    } else if c == '\\' {
        seq!['\\', '\\']
    } else if c == '\u{8}' {
        seq!['\\', 'b']
    } else if c == '\t' {
        seq!['\\', 't']
    } else if c == '\n' {
        seq!['\\', 'n']
    } else if c == '\u{c}' {
        seq!['\\', 'f']
    } else if c == '\r' {
        seq!['\\', 'r']
    } else if (c as int) < 32 {
        seq!['\\', 'u', '0', '0', spec_hex_digit((c as int) / 16), spec_hex_digit((c as int) % 16)]
    } else {
        seq![c]
    }
}

/// A whole string's characters, escaped in order.
pub open spec fn spec_escape(s: Seq<char>) -> Seq<char>
    decreases s.len(),
{
    if s.len() == 0 {
        Seq::empty()
    } else {
        spec_escape(s.drop_last()) + spec_escape_char(s.last())
    }
}

fn hex_digit(d: u32) -> (r: &'static str)
    requires
        d < 16,
    ensures
        r@ == seq![spec_hex_digit(d as int)],
{
    proof {
        reveal_strlit("0");
        reveal_strlit("1");
        reveal_strlit("2");
        reveal_strlit("3");
        reveal_strlit("4");
        reveal_strlit("5");
        reveal_strlit("6");
        reveal_strlit("7");
        reveal_strlit("8");
        reveal_strlit("9");
        reveal_strlit("a");
        reveal_strlit("b");
        reveal_strlit("c");
        reveal_strlit("d");
        reveal_strlit("e");
        reveal_strlit("f");
    }
    if d == 0 { "0" }
    else if d == 1 { "1" }
    else if d == 2 { "2" }
    else if d == 3 { "3" }
    else if d == 4 { "4" }
    else if d == 5 { "5" }
    else if d == 6 { "6" }
    else if d == 7 { "7" }
    else if d == 8 { "8" }
    else if d == 9 { "9" }
    else if d == 10 { "a" }
    else if d == 11 { "b" }
    else if d == 12 { "c" }
    else if d == 13 { "d" }
    else if d == 14 { "e" }
    else { "f" }
}

/// Escapes a string for a JSON string literal.
fn escape_into(out: &mut String, s: &str)
    ensures
        final(out)@ == old(out)@ + spec_escape(s@),
{
    let l = s.unicode_len();
    let mut i: usize = 0;
    proof {
        assert(s@.take(0) =~= Seq::<char>::empty());
        assert(old(out)@ + Seq::<char>::empty() =~= old(out)@);
    }
    while i < l
        invariant
            i <= l,
            l == s@.len(),
            out@ == old(out)@ + spec_escape(s@.take(i as int)),
        decreases l - i,
    {
        let c = s.get_char(i);
        proof {
            assert(s@.take(i + 1).drop_last() =~= s@.take(i as int));
            assert(s@.take(i + 1).last() == s@[i as int]);
        }
        if c == '"' {
            out.append("\\\"");
            proof {
                reveal_strlit("\\\"");
            }
        } else if c == '\\' {
            out.append("\\\\");
            proof {
                reveal_strlit("\\\\");
            }
        } else if c == '\u{8}' {
            out.append("\\b");
            proof {
                reveal_strlit("\\b");
            }
        } else if c == '\t' {
            out.append("\\t");
            proof {
                reveal_strlit("\\t");
            }
        } else if c == '\n' {
            out.append("\\n");
            proof {
                reveal_strlit("\\n");
            }
        } else if c == '\u{c}' {
            out.append("\\f");
            proof {
                reveal_strlit("\\f");
            }
        } else if c == '\r' {
            out.append("\\r");
            proof {
                reveal_strlit("\\r");
            }
        } else if (c as u32) < 32 {
            out.append("\\u00");
            out.append(hex_digit((c as u32) / 16));
            out.append(hex_digit((c as u32) % 16));
            proof {
                reveal_strlit("\\u00");
            }
        } else {
            let piece = s.substring_char(i, i + 1);
            proof {
                assert(piece@ =~= seq![s@[i as int]]);
            }
            out.append(piece);
        }
        proof {
            assert(out@ =~= old(out)@ + spec_escape(s@.take(i + 1)));
        }
        i = i + 1;
    }
    proof {
        assert(s@.take(l as int) =~= s@);
    }
}

/// The indentation unit repeated `n` times.
pub open spec fn spec_repeat(unit: Seq<char>, n: nat) -> Seq<char>
    decreases n,
{
    if n == 0 {
        Seq::empty()
    } else {
        spec_repeat(unit, (n - 1) as nat) + unit
    }
}

fn pad_into(out: &mut String, unit: &str, n: usize)
    ensures
        final(out)@ == old(out)@ + spec_repeat(unit@, n as nat),
{
    let mut i: usize = 0;
    proof {
        assert(old(out)@ + spec_repeat(unit@, 0) =~= old(out)@);
    }
    while i < n
        invariant
            i <= n,
            out@ == old(out)@ + spec_repeat(unit@, i as nat),
        decreases n - i,
    {
        out.append(unit);
        proof {
            assert(out@ =~= old(out)@ + spec_repeat(unit@, (i + 1) as nat));
        }
        i = i + 1;
    }
}

/// How a document renders, pretty-printed: the layout `serde_json`'s
/// pretty printer uses, with the given indentation unit.
pub open spec fn spec_render(v: JsonValue, unit: Seq<char>, depth: nat) -> Seq<char>
    decreases v,
{
    match v {
        JsonValue::Null => "null"@,
        JsonValue::Bool(b) => if b {
            "true"@
        } else {
            "false"@
        },
        JsonValue::Number(s) => s@,
        JsonValue::Text(s) => "\""@ + spec_escape(s@) + "\""@,
        JsonValue::Array(items) => if items@.len() == 0 {
            "[]"@
        } else {
            "[\n"@ + spec_render_items(items@, unit, (depth + 1) as nat) + "\n"@ + spec_repeat(
                unit,
                depth,
            ) + "]"@
        },
        JsonValue::Object(fields) => if fields@.len() == 0 {
            "{}"@
        } else {
            "{\n"@ + spec_render_fields(fields@, unit, (depth + 1) as nat) + "\n"@ + spec_repeat(
                unit,
                depth,
            ) + "}"@
        },
    }
}

/// Array items, each indented, separated by `,\n`.
pub open spec fn spec_render_items(items: Seq<JsonValue>, unit: Seq<char>, depth: nat) -> Seq<
    char,
>
    decreases items,
{
    if items.len() == 0 {
        Seq::empty()
    } else {
        let line = spec_repeat(unit, depth) + spec_render(items.last(), unit, depth);
        if items.len() == 1 {
            line
        } else {
            spec_render_items(items.drop_last(), unit, depth) + ",\n"@ + line
        }
    }
}

/// Object fields, each as an indented `"key": value`, separated by `,\n`.
pub open spec fn spec_render_fields(
    fields: Seq<(String, JsonValue)>,
    unit: Seq<char>,
    depth: nat,
) -> Seq<char>
    decreases fields,
{
    if fields.len() == 0 {
        Seq::empty()
    } else {
        let line = spec_repeat(unit, depth) + "\""@ + spec_escape(fields.last().0@) + "\": "@
            + spec_render(fields.last().1, unit, depth);
        if fields.len() == 1 {
            line
        } else {
            spec_render_fields(fields.drop_last(), unit, depth) + ",\n"@ + line
        }
    }
}

fn render_into(out: &mut String, v: &JsonValue, unit: &str, pad: &str, Ghost(depth): Ghost<nat>)
    requires
        pad@ == spec_repeat(unit@, depth),
    ensures
        final(out)@ == old(out)@ + spec_render(*v, unit@, depth),
    decreases *v,
{
    match v {
        JsonValue::Null => {
            out.append("null");
        },
        JsonValue::Bool(b) => {
            if *b {
                out.append("true");
            } else {
                out.append("false");
            }
        },
        JsonValue::Number(s) => {
            out.append(s.as_str());
        },
        JsonValue::Text(s) => {
            out.append("\"");
            escape_into(out, s.as_str());
            out.append("\"");
        },
        JsonValue::Array(items) => {
            if items.len() == 0 {
                out.append("[]");
            } else {
                out.append("[\n");
                let deeper = crate::strutil::concat_str(pad, unit);
                let ghost mid0 = out@;
                let n = items.len();
                let mut i: usize = 0;
                while i < n
                    invariant
                        0 < n == items@.len(),
                        i <= n,
                        *v == JsonValue::Array(*items),
                        pad@ == spec_repeat(unit@, depth),
                        deeper@ == spec_repeat(unit@, depth + 1),
                        i > 0 ==> out@ == mid0 + spec_render_items(
                            items@.take(i as int),
                            unit@,
                            depth + 1,
                        ),
                        i == 0 ==> out@ == mid0,
                    decreases n - i,
                {
                    let ghost o0 = out@;
                    if i > 0 {
                        out.append(",\n");
                    }
                    out.append(deeper.as_str());
                    proof {
                        assert(decreases_to!(*v => v->Array_0));
                        assert(decreases_to!(*items => items@));
                        axiom_seq_index_decreases(items@, i as int);
                        assert(decreases_to!(*v => items@[i as int]));
                    }
                    render_into(out, &items[i], unit, deeper.as_str(), Ghost(depth + 1));
                    proof {
                        assert(items@.take(i + 1).drop_last() =~= items@.take(i as int));
                        assert(items@.take(i + 1).last() == items@[i as int]);
                        assert(out@ =~= mid0 + spec_render_items(
                            items@.take(i + 1),
                            unit@,
                            depth + 1,
                        ));
                    }
                    i = i + 1;
                }
                proof {
                    assert(items@.take(n as int) =~= items@);
                }
                out.append("\n");
                out.append(pad);
                out.append("]");
            }
        },
        JsonValue::Object(fields) => {
            if fields.len() == 0 {
                out.append("{}");
            } else {
                out.append("{\n");
                let deeper = crate::strutil::concat_str(pad, unit);
                let ghost mid0 = out@;
                let n = fields.len();
                let mut i: usize = 0;
                while i < n
                    invariant
                        0 < n == fields@.len(),
                        i <= n,
                        *v == JsonValue::Object(*fields),
                        pad@ == spec_repeat(unit@, depth),
                        deeper@ == spec_repeat(unit@, depth + 1),
                        i > 0 ==> out@ == mid0 + spec_render_fields(
                            fields@.take(i as int),
                            unit@,
                            depth + 1,
                        ),
                        i == 0 ==> out@ == mid0,
                    decreases n - i,
                {
                    let ghost o0 = out@;
                    if i > 0 {
                        out.append(",\n");
                    }
                    out.append(deeper.as_str());
                    out.append("\"");
                    escape_into(out, fields[i].0.as_str());
                    out.append("\": ");
                    proof {
                        assert(decreases_to!(*v => v->Object_0));
                        assert(decreases_to!(*fields => fields@));
                        axiom_seq_index_decreases(fields@, i as int);
                        assert(decreases_to!(*v => fields@[i as int]));
                    }
                    render_into(out, &fields[i].1, unit, deeper.as_str(), Ghost(depth + 1));
                    proof {
                        assert(fields@.take(i + 1).drop_last() =~= fields@.take(i as int));
                        assert(fields@.take(i + 1).last() == fields@[i as int]);
                        assert(out@ =~= mid0 + spec_render_fields(
                            fields@.take(i + 1),
                            unit@,
                            depth + 1,
                        ));
                    }
                    i = i + 1;
                }
                proof {
                    assert(fields@.take(n as int) =~= fields@);
                }
                out.append("\n");
                out.append(pad);
                out.append("}");
            }
        },
    }
}

/// Pretty-prints the document with the given indentation unit and appends
/// the trailing line ending, as the original file used them.
pub fn serialize(v: &JsonValue, indent: &str, eol: &str) -> (r: String)
    ensures
        r@ == spec_render(*v, indent@, 0) + eol@,
{
    let mut out = String::new();
    proof {
        assert(out@ =~= Seq::<char>::empty());
        assert(""@ =~= spec_repeat(indent@, 0)) by {
            reveal_strlit("");
        }
    }
    render_into(&mut out, v, indent, "", Ghost(0nat));
    proof {
        assert(out@ =~= spec_render(*v, indent@, 0));
    }
    out.append(eol);
    out
}

/// The first position of field `key` in an object's fields, or the field
/// count.
pub open spec fn spec_field_find(fields: Seq<(String, JsonValue)>, key: Seq<char>, i: int) -> int
    decreases fields.len() - i,
{
    if i < 0 || i >= fields.len() {
        fields.len() as int
    } else if fields[i].0@ == key {
        i
    } else {
        spec_field_find(fields, key, i + 1)
    }
}

fn field_find(fields: &Vec<(String, JsonValue)>, key: &str) -> (r: usize)
    ensures
        r == spec_field_find(fields@, key@, 0),
{
    let n = fields.len();
    let mut i: usize = 0;
    while i < n
        invariant
            i <= n,
            n == fields@.len(),
            spec_field_find(fields@, key@, 0) == spec_field_find(fields@, key@, i as int),
        decreases n - i,
    {
        if str_eq(fields[i].0.as_str(), key) {
            return i;
        }
        i = i + 1;
    }
    n
}

/// The value is `{}`: an object without fields.
pub open spec fn spec_is_empty_object(v: JsonValue) -> bool {
    v matches JsonValue::Object(f) && f@.len() == 0
}

/// Removes the named field when it is an empty object: the repair for an
/// empty dependency block drops the key entirely. Anything else leaves the
/// document unchanged, and the flag says whether a removal happened.
pub fn remove_empty_field(doc: JsonValue, key: &str) -> (r: (JsonValue, bool))
    ensures
        ({
            match doc {
                JsonValue::Object(fields) => {
                    let i = spec_field_find(fields@, key@, 0);
                    if i < fields@.len() && spec_is_empty_object(fields@[i].1) {
                        &&& r.0 matches JsonValue::Object(nf)
                        &&& nf@ == fields@.remove(i)
                        &&& r.1
                    } else {
                        r.0 == doc && !r.1
                    }
                },
                _ => r.0 == doc && !r.1,
            }
        }),
{
    match doc {
        JsonValue::Object(fields) => {
            let i = field_find(&fields, key);
            if i < fields.len() {
                let empty = match &fields[i].1 {
                    JsonValue::Object(f2) => f2.len() == 0,
                    _ => false,
                };
                if empty {
                    let mut fields = fields;
                    let _removed = fields.remove(i);
                    return (JsonValue::Object(fields), true);
                }
            }
            (JsonValue::Object(fields), false)
        },
        other => (other, false),
    }
}

/// Writes `key: value` into the document's top object: over the first
/// field of that name, keeping its place, or appended when the key is new.
/// A document that is no object is left unchanged, and the flag says
/// whether a write happened.
pub fn upsert_field(doc: JsonValue, key: String, value: JsonValue) -> (r: (JsonValue, bool))
    ensures
        ({
            match doc {
                JsonValue::Object(fields) => {
                    let i = spec_field_find(fields@, key@, 0);
                    &&& r.1
                    &&& r.0 matches JsonValue::Object(nf)
                    &&& (if i < fields@.len() {
                        nf@ == fields@.update(i, (fields@[i].0, value))
                    } else {
                        nf@ == fields@.push((key, value))
                    })
                },
                _ => r.0 == doc && !r.1,
            }
        }),
{
    match doc {
        JsonValue::Object(fields) => {
            let mut fields = fields;
            let i = field_find(&fields, key.as_str());
            if i < fields.len() {
                let ghost f0 = fields@;
                let old_pair = fields.remove(i);
                fields.insert(i, (old_pair.0, value));
                proof {
                    assert(fields@ =~= f0.update(i as int, (f0[i as int].0, value)));
                }
            } else {
                fields.push((key, value));
            }
            (JsonValue::Object(fields), true)
        },
        other => (other, false),
    }
}

/// The entries of a section after one dependency's version is rewritten:
/// the first entry named `name` takes the text `version`, the rest stay.
pub open spec fn spec_set_version(
    entries: Seq<(String, JsonValue)>,
    name: Seq<char>,
    version: Seq<char>,
    result: Seq<(String, JsonValue)>,
) -> bool {
    let i = spec_field_find(entries, name, 0);
    if i < entries.len() {
        &&& result.len() == entries.len()
        &&& (forall|h: int|
            0 <= h < entries.len() && h != i ==> #[trigger] result[h] == entries[h])
        &&& result[i].0 == entries[i].0
        &&& (result[i].1 matches JsonValue::Text(t) && t@ == version)
    } else {
        result == entries
    }
}

/// Rewrites one dependency's declared version inside the named section of
/// the document, when the section exists as an object and declares the
/// name; anything else stays as it is.
pub fn set_version_in_section(doc: JsonValue, section: &str, name: &str, version: &str) -> (r:
    JsonValue)
    ensures
        ({
            match doc {
                JsonValue::Object(fields) => {
                    let i = spec_field_find(fields@, section@, 0);
                    if i < fields@.len() && (fields@[i].1 is Object) {
                        &&& r matches JsonValue::Object(nf)
                        &&& nf@.len() == fields@.len()
                        &&& (forall|h: int|
                            0 <= h < fields@.len() && h != i ==> #[trigger] nf@[h] == fields@[h])
                        &&& nf@[i].0 == fields@[i].0
                        &&& (nf@[i].1 matches JsonValue::Object(ni)
                            && spec_set_version(
                            (fields@[i].1->Object_0)@,
                            name@,
                            version@,
                            ni@,
                        ))
                    } else {
                        r == doc
                    }
                },
                _ => r == doc,
            }
        }),
{
    match doc {
        JsonValue::Object(fields) => {
            let mut fields = fields;
            let i = field_find(&fields, section);
            if i < fields.len() {
                let is_obj = matches!(&fields[i].1, JsonValue::Object(_));
                if is_obj {
                    let ghost f0 = fields@;
                    let pair = fields.remove(i);
                    let (skey, sval) = pair;
                    match sval {
                        JsonValue::Object(inner) => {
                            let mut inner = inner;
                            let j = field_find(&inner, name);
                            if j < inner.len() {
                                let ghost i0 = inner@;
                                let old_entry = inner.remove(j);
                                inner.insert(j, (old_entry.0, JsonValue::Text(version.to_owned())));
                                proof {
                                    assert(inner@.len() == i0.len());
                                    assert forall|h: int|
                                        0 <= h < i0.len() && h != j implies #[trigger] inner@[h]
                                        == i0[h] by {
                                        assert(inner@ =~= i0.update(j as int, inner@[j as int]));
                                    }
                                }
                            }
                            fields.insert(i, (skey, JsonValue::Object(inner)));
                            proof {
                                assert forall|h: int|
                                    0 <= h < fields@.len() && h != i implies #[trigger] fields@[h]
                                    == f0[h] by {
                                    assert(fields@ =~= f0.update(i as int, fields@[i as int]));
                                }
                            }
                            return JsonValue::Object(fields);
                        },
                        other => {
                            fields.insert(i, (skey, other));
                            proof {
                                assert(fields@ =~= f0);
                            }
                            return JsonValue::Object(fields);
                        },
                    }
                }
            }
            JsonValue::Object(fields)
        },
        other => other,
    }
}

/// The entries kept by the stale-pattern repair: every array item except
/// the strings standing in the unmatched list.
pub open spec fn spec_retain_items(items: Seq<JsonValue>, drop: Seq<Seq<char>>) -> Seq<JsonValue>
    decreases items.len(),
{
    if items.len() == 0 {
        Seq::empty()
    } else {
        spec_retain_items(items.drop_last(), drop) + if (items.last() matches JsonValue::Text(t)
            && drop.contains(t@)) {
            Seq::empty()
        } else {
            seq![items.last()]
        }
    }
}

/// Drops exactly the unmatched entries from the document's `workspaces`
/// array; a document without such an array stays as it is.
pub fn retain_workspaces(doc: JsonValue, drop: &Vec<String>) -> (r: (JsonValue, bool))
    ensures
        ({
            match doc {
                JsonValue::Object(fields) => {
                    let i = spec_field_find(fields@, "workspaces"@, 0);
                    if i < fields@.len() && (fields@[i].1 is Array) {
                        &&& r.1
                        &&& r.0 matches JsonValue::Object(nf)
                        &&& nf@.len() == fields@.len()
                        &&& (forall|h: int|
                            0 <= h < fields@.len() && h != i ==> #[trigger] nf@[h] == fields@[h])
                        &&& nf@[i].0 == fields@[i].0
                        &&& (nf@[i].1 matches JsonValue::Array(ni) && ni@ == spec_retain_items(
                            (fields@[i].1->Array_0)@,
                            drop@.map_values(|p: String| p@),
                        ))
                    } else {
                        r.0 == doc && !r.1
                    }
                },
                _ => r.0 == doc && !r.1,
            }
        }),
{
    match doc {
        JsonValue::Object(fields) => {
            let mut fields = fields;
            let i = field_find(&fields, "workspaces");
            if i < fields.len() {
                let is_arr = matches!(&fields[i].1, JsonValue::Array(_));
                if is_arr {
                    let ghost f0 = fields@;
                    let pair = fields.remove(i);
                    let (skey, sval) = pair;
                    match sval {
                        JsonValue::Array(items) => {
                            let ghost iv = items@;
                            let ghost dv = drop@.map_values(|p: String| p@);
                            let mut kept: Vec<JsonValue> = Vec::new();
                            let mut rest = items;
                            let ghost mut k: int = 0;
                            proof {
                                assert(iv.take(0) =~= Seq::<JsonValue>::empty());
                            }
                            while rest.len() > 0
                                invariant
                                    0 <= k <= iv.len(),
                                    rest@ == iv.skip(k),
                                    dv == drop@.map_values(|p: String| p@),
                                    kept@ == spec_retain_items(iv.take(k), dv),
                                decreases rest@.len(),
                            {
                                proof {
                                    assert(rest@[0] == iv[k]);
                                }
                                let item = rest.remove(0);
                                let ghost k0 = kept@;
                                let dropped = match &item {
                                    JsonValue::Text(t) => crate::strutil::vec_contains_str(
                                        drop,
                                        t.as_str(),
                                    ),
                                    _ => false,
                                };
                                if !dropped {
                                    kept.push(item);
                                }
                                proof {
                                    assert(iv.take(k + 1).drop_last() =~= iv.take(k));
                                    assert(iv.take(k + 1).last() == iv[k]);
                                    if dropped {
                                        assert(kept@ =~= spec_retain_items(iv.take(k + 1), dv));
                                    } else {
                                        assert(kept@ =~= spec_retain_items(iv.take(k + 1), dv));
                                    }
                                    assert(iv.skip(k).skip(1) =~= iv.skip(k + 1));
                                }
                                proof {
                                    k = k + 1;
                                }
                            }
                            proof {
                                assert(iv.take(iv.len() as int) =~= iv);
                            }
                            fields.insert(i, (skey, JsonValue::Array(kept)));
                            proof {
                                assert forall|h: int|
                                    0 <= h < fields@.len() && h != i implies #[trigger] fields@[h]
                                    == f0[h] by {
                                    assert(fields@ =~= f0.update(i as int, fields@[i as int]));
                                }
                            }
                            return (JsonValue::Object(fields), true);
                        },
                        other => {
                            fields.insert(i, (skey, other));
                            proof {
                                assert(fields@ =~= f0);
                            }
                            return (JsonValue::Object(fields), false);
                        },
                    }
                }
            }
            (JsonValue::Object(fields), false)
        },
        other => (other, false),
    }
}

/// Alphabetical order on object fields, by key.
pub open spec fn field_order() -> spec_fn((String, JsonValue), (String, JsonValue)) -> bool {
    |a: (String, JsonValue), b: (String, JsonValue)| spec_lex_cmp(a.0@, b.0@) != Ordering::Greater
}

fn sort_fields_vec(input: Vec<(String, JsonValue)>) -> (r: Vec<(String, JsonValue)>)
    ensures
        sorted_by(r@, field_order()),
        r@.to_multiset() == input@.to_multiset(),
{
    broadcast use vstd::seq_lib::group_to_multiset_ensures;

    let ghost orig = input@;
    let ghost le = field_order();
    let mut rest = input;
    let mut out: Vec<(String, JsonValue)> = Vec::new();
    proof {
        assert forall|y: (String, JsonValue)| true implies out@.to_multiset().count(y) == 0 by {
            assert(!out@.contains(y));
        }
        assert(out@.to_multiset().add(rest@.to_multiset()) =~= orig.to_multiset());
    }
    while rest.len() > 0
        invariant
            sorted_by(out@, le),
            le == field_order(),
            out@.to_multiset().add(rest@.to_multiset()) == orig.to_multiset(),
        decreases rest@.len(),
    {
        let ghost rest0 = rest@;
        let item = rest.remove(0);
        proof {
            assert(rest0.len() > 0);
            assert(rest@ == rest0.remove(0));
            vstd::seq_lib::to_multiset_remove(rest0, 0);
            assert(rest0.contains(rest0[0]));
            vstd::seq_lib::to_multiset_contains(rest0, rest0[0]);
        }
        let mut pos: usize = 0;
        while pos < out.len() && !matches!(
            lex_cmp_str(out[pos].0.as_str(), item.0.as_str()),
            Ordering::Greater,
        )
            invariant
                pos <= out@.len(),
                forall|k: int| 0 <= k < pos ==> le(#[trigger] out@[k], item),
                le == field_order(),
            decreases out@.len() - pos,
        {
            pos = pos + 1;
        }
        proof {
            if pos < out@.len() {
                crate::strutil::lemma_lex_cmp_flip(out@[pos as int].0@, item.0@);
                crate::strutil::lemma_lex_cmp_flip(item.0@, out@[pos as int].0@);
                crate::strutil::lemma_lex_cmp_equal(out@[pos as int].0@, item.0@);
                crate::strutil::lemma_lex_cmp_equal(item.0@, out@[pos as int].0@);
                assert(le(item, out@[pos as int]));
            }
        }
        let ghost out0 = out@;
        out.insert(pos, item);
        proof {
            assert(out@ =~= out0.insert(pos as int, item));
            vstd::seq_lib::to_multiset_insert(out0, pos as int, item);
            let newv = out@;
            assert forall|i: int, j: int| 0 <= i < j < newv.len() implies le(
                newv[i],
                newv[j],
            ) by {
                if i < pos && j < pos {
                    assert(newv[i] == out0[i] && newv[j] == out0[j]);
                } else if i < pos && j == pos {
                    assert(newv[i] == out0[i]);
                    assert(le(out0[i], item));
                } else if i < pos && j > pos {
                    assert(le(out0[i], out0[j - 1]));
                    assert(newv[i] == out0[i] && newv[j] == out0[j - 1]);
                } else if i == pos && j > pos {
                    assert(newv[j] == out0[j - 1]);
                    if pos < out0.len() {
                        assert(le(item, out0[pos as int]));
                        if j - 1 > pos {
                            assert(le(out0[pos as int], out0[j - 1]));
                            crate::strutil::lemma_lex_cmp_equal(item.0@, out0[pos as int].0@);
                            crate::strutil::lemma_lex_cmp_equal(
                                out0[pos as int].0@,
                                out0[j - 1].0@,
                            );
                            crate::strutil::lemma_lex_cmp_equal(item.0@, out0[j - 1].0@);
                            if spec_lex_cmp(item.0@, out0[pos as int].0@) == Ordering::Less
                                && spec_lex_cmp(out0[pos as int].0@, out0[j - 1].0@)
                                == Ordering::Less {
                                crate::strutil::lemma_lex_cmp_trans(
                                    item.0@,
                                    out0[pos as int].0@,
                                    out0[j - 1].0@,
                                );
                            }
                        }
                    }
                } else {
                    assert(le(out0[i - 1], out0[j - 1]));
                    assert(newv[i] == out0[i - 1] && newv[j] == out0[j - 1]);
                }
            }
            assert(out@.to_multiset().add(rest@.to_multiset()) =~= orig.to_multiset());
        }
    }
    proof {
        assert forall|y: (String, JsonValue)| true implies rest@.to_multiset().count(y) == 0 by {
            assert(!rest@.contains(y));
            vstd::seq_lib::to_multiset_contains(rest@, y);
        }
        assert(out@.to_multiset() =~= orig.to_multiset());
    }
    out
}

/// Reorders the object under `key` alphabetically by its keys, keeping
/// exactly its entries; the repair for an unordered dependency block. A
/// missing or non-object field leaves the document unchanged.
pub fn sort_field(doc: JsonValue, key: &str) -> (r: (JsonValue, bool))
    ensures
        ({
            match doc {
                JsonValue::Object(fields) => {
                    let i = spec_field_find(fields@, key@, 0);
                    if i < fields@.len() && (fields@[i].1 is Object) {
                        &&& r.1
                        &&& r.0 matches JsonValue::Object(nf)
                        &&& nf@.len() == fields@.len()
                        &&& (forall|h: int|
                            0 <= h < fields@.len() && h != i ==> #[trigger] nf@[h] == fields@[h])
                        &&& nf@[i].0 == fields@[i].0
                        &&& (nf@[i].1 matches JsonValue::Object(ni) && sorted_by(
                            ni@,
                            field_order(),
                        ) && ni@.to_multiset() == (fields@[i].1->Object_0)@.to_multiset())
                    } else {
                        r.0 == doc && !r.1
                    }
                },
                _ => r.0 == doc && !r.1,
            }
        }),
{
    match doc {
        JsonValue::Object(fields) => {
            let mut fields = fields;
            let i = field_find(&fields, key);
            if i < fields.len() {
                let is_obj = matches!(&fields[i].1, JsonValue::Object(_));
                if is_obj {
                    let ghost f0 = fields@;
                    let pair = fields.remove(i);
                    let (skey, sval) = pair;
                    match sval {
                        JsonValue::Object(inner) => {
                            let sorted = sort_fields_vec(inner);
                            fields.insert(i, (skey, JsonValue::Object(sorted)));
                            proof {
                                assert forall|h: int|
                                    0 <= h < fields@.len() && h != i implies #[trigger] fields@[h]
                                    == f0[h] by {
                                    assert(fields@ =~= f0.update(i as int, fields@[i as int]));
                                }
                            }
                            return (JsonValue::Object(fields), true);
                        },
                        other => {
                            fields.insert(i, (skey, other));
                            proof {
                                assert(fields@ =~= f0);
                            }
                            return (JsonValue::Object(fields), false);
                        },
                    }
                }
            }
            (JsonValue::Object(fields), false)
        },
        other => (other, false),
    }
}

/// What taking the named entries out of a field list leaves and yields:
/// the names are taken in order, each removing the first field of that
/// name, collected in taking order.
pub open spec fn spec_take_names(
    fields: Seq<(String, JsonValue)>,
    names: Seq<Seq<char>>,
) -> (Seq<(String, JsonValue)>, Seq<(String, JsonValue)>)
    decreases names.len(),
{
    if names.len() == 0 {
        (fields, Seq::empty())
    } else {
        let prev = spec_take_names(fields, names.drop_last());
        let i = spec_field_find(prev.0, names.last(), 0);
        if i < prev.0.len() {
            (prev.0.remove(i), prev.1.push(prev.0[i]))
        } else {
            prev
        }
    }
}

/// `b` with every entry of `m` written in, in order: an entry for a key
/// already present overwrites its value in place, a new key appends.
pub open spec fn spec_upsert_fields(
    b: Seq<(String, JsonValue)>,
    m: Seq<(String, JsonValue)>,
) -> Seq<(String, JsonValue)>
    decreases m.len(),
{
    if m.len() == 0 {
        b
    } else {
        let prev = spec_upsert_fields(b, m.drop_last());
        let i = spec_field_find(prev, m.last().0@, 0);
        if i < prev.len() {
            prev.update(i, (prev[i].0, m.last().1))
        } else {
            prev.push(m.last())
        }
    }
}

fn take_names(fields: Vec<(String, JsonValue)>, names: &Vec<String>) -> (r: (
    Vec<(String, JsonValue)>,
    Vec<(String, JsonValue)>,
))
    ensures
        ({
            let t = spec_take_names(fields@, names@.map_values(|p: String| p@));
            r.0@ == t.0 && r.1@ == t.1
        }),
{
    let ghost nv = names@.map_values(|p: String| p@);
    let ghost f0 = fields@;
    let mut remaining = fields;
    let mut taken: Vec<(String, JsonValue)> = Vec::new();
    let mut k: usize = 0;
    proof {
        assert(nv.take(0) =~= Seq::<Seq<char>>::empty());
    }
    while k < names.len()
        invariant
            k <= names@.len(),
            nv == names@.map_values(|p: String| p@),
            (remaining@, taken@) == spec_take_names(f0, nv.take(k as int)),
        decreases names@.len() - k,
    {
        proof {
            assert(nv.take(k + 1).drop_last() =~= nv.take(k as int));
            assert(nv.take(k + 1).last() == nv[k as int]);
            assert(nv[k as int] == names@[k as int]@);
        }
        let i = field_find(&remaining, names[k].as_str());
        if i < remaining.len() {
            let entry = remaining.remove(i);
            taken.push(entry);
        }
        k = k + 1;
    }
    proof {
        assert(nv.take(names@.len() as int) =~= nv);
    }
    (remaining, taken)
}

/// Moves the named entries from the `dependencies` object into
/// `devDependencies`, keeping each declared version text: the block is
/// created at the end when absent. A document without a `dependencies`
/// object, or whose `devDependencies` field is no object, is left
/// unchanged: no declaration is ever dropped.
pub fn move_types_to_dev(doc: JsonValue, names: &Vec<String>) -> (r: (JsonValue, bool))
    ensures
        ({
            match doc {
                JsonValue::Object(fields) => {
                    let i = spec_field_find(fields@, "dependencies"@, 0);
                    let j = spec_field_find(fields@, "devDependencies"@, 0);
                    if i < fields@.len() && (fields@[i].1 is Object) && (j >= fields@.len() || (
                    fields@[j].1 is Object && j != i)) {
                        let t = spec_take_names(
                            (fields@[i].1->Object_0)@,
                            names@.map_values(|p: String| p@),
                        );
                        {
                            &&& r.1
                            &&& r.0 matches JsonValue::Object(nf)
                            &&& nf@[i].0 == fields@[i].0
                            &&& (nf@[i].1 matches JsonValue::Object(nd) && nd@ == t.0)
                            &&& (if j < fields@.len() {
                                &&& nf@.len() == fields@.len()
                                &&& (forall|h: int|
                                    0 <= h < fields@.len() && h != i && h != j
                                        ==> #[trigger] nf@[h] == fields@[h])
                                &&& nf@[j].0 == fields@[j].0
                                &&& (nf@[j].1 matches JsonValue::Object(nx) && nx@
                                    == spec_upsert_fields((fields@[j].1->Object_0)@, t.1))
                            } else {
                                &&& nf@.len() == fields@.len() + 1
                                &&& (forall|h: int|
                                    0 <= h < fields@.len() && h != i ==> #[trigger] nf@[h]
                                        == fields@[h])
                                &&& nf@.last().0@ == "devDependencies"@
                                &&& (nf@.last().1 matches JsonValue::Object(nx) && nx@ == t.1)
                            })
                        }
                    } else {
                        r.0 == doc && !r.1
                    }
                },
                _ => r.0 == doc && !r.1,
            }
        }),
{
    match doc {
        JsonValue::Object(fields) => {
            let mut fields = fields;
            let i = field_find(&fields, "dependencies");
            let j = field_find(&fields, "devDependencies");
            let deps_ok = i < fields.len() && matches!(&fields[i].1, JsonValue::Object(_));
            let dev_ok = j >= fields.len() || (j != i && matches!(
                &fields[j].1,
                JsonValue::Object(_),
            ));
            if deps_ok && dev_ok {
                let ghost f0 = fields@;
                let pair = fields.remove(i);
                let (skey, sval) = pair;
                match sval {
                    JsonValue::Object(inner) => {
                        let t = take_names(inner, names);
                        let (remaining, taken) = t;
                        fields.insert(i, (skey, JsonValue::Object(remaining)));
                        proof {
                            assert(fields@ =~= f0.update(i as int, fields@[i as int]));
                            assert(spec_field_find(fields@, "devDependencies"@, 0)
                                == spec_field_find(f0, "devDependencies"@, 0)) by {
                                lemma_field_find_same_keys(fields@, f0, "devDependencies"@, 0);
                            }
                        }
                        if j < fields.len() {
                            let ghost f1 = fields@;
                            let pair2 = fields.remove(j);
                            let (dkey, dval) = pair2;
                            match dval {
                                JsonValue::Object(dev) => {
                                    let merged = upsert_all(dev, taken);
                                    fields.insert(j, (dkey, JsonValue::Object(merged)));
                                    proof {
                                        assert(fields@ =~= f1.update(
                                            j as int,
                                            fields@[j as int],
                                        ));
                                    }
                                    return (JsonValue::Object(fields), true);
                                },
                                other => {
                                    fields.insert(j, (dkey, other));
                                    proof {
                                        assert(fields@ =~= f1);
                                        assert(false);
                                    }
                                    return (JsonValue::Object(fields), true);
                                },
                            }
                        } else {
                            fields.push(
                                (String::from_str("devDependencies"), JsonValue::Object(taken)),
                            );
                            return (JsonValue::Object(fields), true);
                        }
                    },
                    other => {
                        fields.insert(i, (skey, other));
                        proof {
                            assert(fields@ =~= f0);
                            assert(false);
                        }
                        return (JsonValue::Object(fields), false);
                    },
                }
            }
            (JsonValue::Object(fields), false)
        },
        other => (other, false),
    }
}

/// Finding a key looks only at the keys: two field lists agreeing on every
/// key agree on where a key first stands.
proof fn lemma_field_find_same_keys(
    a: Seq<(String, JsonValue)>,
    b: Seq<(String, JsonValue)>,
    key: Seq<char>,
    i: int,
)
    requires
        a.len() == b.len(),
        forall|h: int| 0 <= h < a.len() ==> (#[trigger] a[h]).0@ == b[h].0@,
    ensures
        spec_field_find(a, key, i) == spec_field_find(b, key, i),
    decreases a.len() - i,
{
    if 0 <= i < a.len() {
        lemma_field_find_same_keys(a, b, key, i + 1);
    }
}

fn upsert_all(base: Vec<(String, JsonValue)>, more: Vec<(String, JsonValue)>) -> (r: Vec<
    (String, JsonValue),
>)
    ensures
        r@ == spec_upsert_fields(base@, more@),
{
    let ghost b0 = base@;
    let ghost m0 = more@;
    let mut out = base;
    let mut rest = more;
    let ghost mut k: int = 0;
    while rest.len() > 0
        invariant
            0 <= k <= m0.len(),
            rest@ == m0.skip(k),
            out@ == spec_upsert_fields(b0, m0.take(k)),
        decreases rest@.len(),
    {
        proof {
            assert(rest@[0] == m0[k]);
        }
        let pair = rest.remove(0);
        let i = field_find(&out, pair.0.as_str());
        let ghost o0 = out@;
        if i < out.len() {
            let old_pair = out.remove(i);
            out.insert(i, (old_pair.0, pair.1));
            proof {
                assert(out@ =~= o0.update(i as int, (o0[i as int].0, m0[k].1)));
            }
        } else {
            out.push(pair);
        }
        proof {
            assert(m0.take(k + 1).drop_last() =~= m0.take(k));
            assert(m0.take(k + 1).last() == m0[k]);
            assert(out@ == spec_upsert_fields(b0, m0.take(k + 1)));
            assert(m0.skip(k).skip(1) =~= m0.skip(k + 1));
        }
        proof {
            k = k + 1;
        }
    }
    proof {
        assert(m0.take(m0.len() as int) =~= m0);
    }
    out
}

/// The order repair really orders the manifest: a dependency map decoded
/// from a field list that `sort_field` produced has its keys in
/// alphabetical order, key for key.
pub proof fn lemma_sorted_fields_give_sorted_keys(
    fields: Seq<(String, JsonValue)>,
    deps: Seq<(String, String)>,
)
    requires
        sorted_by(fields, field_order()),
        deps.len() == fields.len(),
        forall|h: int| 0 <= h < deps.len() ==> (#[trigger] deps[h]).0@ == fields[h].0@,
    ensures
        crate::packages::spec_keys_sorted(deps),
{
    assert forall|i: int|
        0 <= i < deps.len() - 1 implies spec_lex_cmp((#[trigger] deps[i]).0@, deps[i + 1].0@)
        != Ordering::Greater by {
        assert(field_order()(fields[i], fields[i + 1]));
    }
}

/// How the workspace document renders: a `packages:` header, then one
/// quoted pattern per line, each line carried by the detected indentation
/// unit and line ending.
pub open spec fn spec_render_workspace_doc(
    packages: Seq<Seq<char>>,
    indent: Seq<char>,
    eol: Seq<char>,
    k: int,
) -> Seq<char>
    decreases k,
{
    if k <= 0 {
        "packages:"@ + eol
    } else {
        spec_render_workspace_doc(packages, indent, eol, k - 1) + indent + "- \""@ + spec_escape(
            packages[k - 1],
        ) + "\""@ + eol
    }
}

/// Renders the workspace document's pattern list with the given
/// indentation unit and line ending: the repair writes the list back in
/// the file's own style.
pub fn render_workspace_doc(packages: &Vec<String>, indent: &str, eol: &str) -> (r: String)
    ensures
        r@ == spec_render_workspace_doc(
            packages@.map_values(|p: String| p@),
            indent@,
            eol@,
            packages@.len() as int,
        ),
{
    let ghost pv = packages@.map_values(|p: String| p@);
    let mut out = String::from_str("packages:");
    out.append(eol);
    let mut k: usize = 0;
    proof {
        assert(out@ =~= spec_render_workspace_doc(pv, indent@, eol@, 0));
    }
    while k < packages.len()
        invariant
            k <= packages@.len(),
            pv == packages@.map_values(|p: String| p@),
            out@ == spec_render_workspace_doc(pv, indent@, eol@, k as int),
        decreases packages@.len() - k,
    {
        proof {
            assert(pv[k as int] == packages@[k as int]@);
        }
        out.append(indent);
        out.append("- \"");
        escape_into(&mut out, packages[k].as_str());
        out.append("\"");
        out.append(eol);
        proof {
            assert(out@ =~= spec_render_workspace_doc(pv, indent@, eol@, k + 1));
        }
        k = k + 1;
    }
    out
}

} // verus!
