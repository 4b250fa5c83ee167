//! A small JSON layer for the documents this application persists and
//! exchanges with the inference server: objects, arrays, strings with
//! the full escape repertoire, numbers of every written shape, booleans
//! and null. The unsigned integers the documents' rules read get their
//! value; any other number literal is carried through as its text, so a
//! field that no rule recognizes can hold one without failing anything.

use vstd::prelude::*;

verus! {

/// Mathematical model of a JSON document tree.
pub enum Json {
    Null,
    Bool(bool),
    Num(u64),
    NumRaw(Seq<char>),
    Str(Seq<char>),
    Arr(Seq<Json>),
    Obj(Seq<(Seq<char>, Json)>),
}

/// Executable JSON document tree. Object fields keep their order.
/// `Num` holds the unsigned integers this application's documents use;
/// any other number literal (signed, fractional, exponent, or past
/// `u64::MAX`) is carried through as `NumRaw`, its text as it was read,
/// so that a field no rule recognizes never fails a document.
#[derive(Debug)]
pub enum JsonValue {
    Null,
    Bool(bool),
    Num(u64),
    NumRaw(String),
    Str(String),
    Arr(Vec<JsonValue>),
    Obj(Vec<(String, JsonValue)>),
}

broadcast use vstd::std_specs::vec::group_vec_axioms, vstd::seq::group_seq_axioms;

impl View for JsonValue {
    type V = Json;

    open spec fn view(&self) -> Json
        decreases self, 1int,
    {
        match self {
            JsonValue::Null => Json::Null,
            JsonValue::Bool(b) => Json::Bool(*b),
            JsonValue::Num(n) => Json::Num(*n),
            JsonValue::NumRaw(t) => Json::NumRaw(t@),
            JsonValue::Str(s) => Json::Str(s@),
            JsonValue::Arr(items) => Json::Arr(arr_view(items@)),
            JsonValue::Obj(fields) => Json::Obj(obj_view(fields@)),
        }
    }
}

/// Element-wise view of an array's items.
pub open spec fn arr_view(s: Seq<JsonValue>) -> Seq<Json>
    decreases s, 0int,
{
    if s.len() == 0 {
        Seq::empty()
    } else {
        arr_view(s.drop_last()).push(s.last()@)
    }
}

/// Element-wise view of an object's fields.
pub open spec fn obj_view(s: Seq<(String, JsonValue)>) -> Seq<(Seq<char>, Json)>
    decreases s, 0int,
{
    if s.len() == 0 {
        Seq::empty()
    } else {
        obj_view(s.drop_last()).push((s.last().0@, s.last().1@))
    }
}

/// `arr_view` maps each item to its view, keeping length and order.
pub proof fn lemma_arr_view(s: Seq<JsonValue>)
    ensures
        arr_view(s).len() == s.len(),
        forall|i: int| 0 <= i < s.len() ==> arr_view(s)[i] == #[trigger] s[i]@,
    decreases s.len(),
{
    if s.len() > 0 {
        lemma_arr_view(s.drop_last());
        assert(arr_view(s) == arr_view(s.drop_last()).push(s.last()@));
        assert forall|i: int| 0 <= i < s.len() implies arr_view(s)[i] == #[trigger] s[i]@ by {
            if i < s.len() - 1 {
                assert(s.drop_last()[i] == s[i]);
            } else {
                assert(s.last() == s[i]);
            }
        }
    }
}

/// `obj_view` maps each field to its viewed key and value, keeping order.
pub proof fn lemma_obj_view(s: Seq<(String, JsonValue)>)
    ensures
        obj_view(s).len() == s.len(),
        forall|i: int| 0 <= i < s.len() ==> obj_view(s)[i].0 == #[trigger] s[i].0@
            && obj_view(s)[i].1 == s[i].1@,
    decreases s.len(),
{
    if s.len() > 0 {
        lemma_obj_view(s.drop_last());
        assert(obj_view(s) == obj_view(s.drop_last()).push((s.last().0@, s.last().1@)));
        assert forall|i: int| 0 <= i < s.len() implies obj_view(s)[i].0 == #[trigger] s[i].0@
            && obj_view(s)[i].1 == s[i].1@ by {
            if i < s.len() - 1 {
                assert(s.drop_last()[i] == s[i]);
            } else {
                assert(s.last() == s[i]);
            }
        }
    }
}

/// The decimal digit character for `d` (which must be below ten).
pub open spec fn dec_digit(d: nat) -> char {
    if d == 0 { '0' } else if d == 1 { '1' } else if d == 2 { '2' }
    else if d == 3 { '3' } else if d == 4 { '4' } else if d == 5 { '5' }
    else if d == 6 { '6' } else if d == 7 { '7' } else if d == 8 { '8' }
    else { '9' }
}

/// Decimal rendering of `n`, most significant digit first, no sign,
/// no leading zeros (except for zero itself).
pub open spec fn dec_of(n: nat) -> Seq<char>
    decreases n,
{
    if n < 10 {
        seq![dec_digit(n)]
    } else {
        dec_of(n / 10) + seq![dec_digit(n % 10)]
    }
}

/// The decimal digit character for `d` as a one-character string slice.
fn dec_digit_str(d: u64) -> (s: &'static str)
    requires
        d < 10,
    ensures
        s@ =~= seq![dec_digit(d as nat)],
{
    proof {
        reveal_strlit("0");
        reveal_strlit("1");
        reveal_strlit("2");
        reveal_strlit("3");
        reveal_strlit("4");
        reveal_strlit("5");
        reveal_strlit("6");
        reveal_strlit("7");
        reveal_strlit("8");
        reveal_strlit("9");
    }
    match d {
        0 => "0", 1 => "1", 2 => "2", 3 => "3", 4 => "4",
        5 => "5", 6 => "6", 7 => "7", 8 => "8", _ => "9",
    }
}

/// The hexadecimal digit character for `d` (which must be below sixteen).
pub open spec fn hex_digit(d: nat) -> char {
    if d < 10 {
        dec_digit(d)
    } else if d == 10 { 'a' } else if d == 11 { 'b' } else if d == 12 { 'c' }
    else if d == 13 { 'd' } else if d == 14 { 'e' } else { 'f' }
}

/// Relies on char's `Display` through `ToString`: the string holding
/// exactly this one character.
#[verifier::external_body]
fn char_to_string(c: char) -> (s: String)
    ensures
        s@ =~= seq![c],
{
    c.to_string()
}

/// Relies on char::from_u32: the character with this code point for
/// every valid one (below the surrogate range or between it and
/// 0x10FFFF), and nothing otherwise.
#[verifier::external_body]
fn char_from_u32(u: u32) -> (r: Option<char>)
    ensures
        r matches Some(c) ==> c as u32 == u,
        r is Some <==> (u < 0xD800 || (0xE000 <= u && u <= 0x10FFFF)),
{
    char::from_u32(u)
}

/// A character is its code point: equal casts give equal characters.
proof fn lemma_char_of_code(c: char, u: u32)
    requires
        c as u32 == u,
    ensures
        c == u as char,
{
}

/// Renders `n` in decimal, exactly as `dec_of` describes.
pub fn u64_to_string(n: u64) -> (s: String)
    ensures
        s@ == dec_of(n as nat),
    decreases n,
{
    let digit = dec_digit_str(n % 10);
    if n < 10 {
        let s = String::from_str(digit);
        assert(s@ =~= dec_of(n as nat));
        s
    } else {
        let mut s = u64_to_string(n / 10);
        s.append(digit);
        assert(s@ =~= dec_of(n as nat));
        s
    }
}

/// How one character is written inside a JSON string: itself, a named
/// escape, or a `\u00XX` escape for the remaining control characters.
pub open spec fn esc_char(c: char) -> Seq<char> {
    if c == '"' { seq!['\\', '"'] }
    else if c == '\\' { seq!['\\', '\\'] }
    else if c == '\n' { seq!['\\', 'n'] }
    else if c == '\r' { seq!['\\', 'r'] }
    else if c == '\t' { seq!['\\', 't'] }
    else if (c as u32) < 0x20 {
        seq!['\\', 'u', '0', '0',
            hex_digit(((c as u32) / 16) as nat), hex_digit(((c as u32) % 16) as nat)]
    } else {
        seq![c]
    }
}

/// The escaped writing of `s` from position `from` on.
pub open spec fn esc_from(s: Seq<char>, from: int) -> Seq<char>
    decreases s.len() - from,
{
    if from < 0 || from >= s.len() {
        Seq::empty()
    } else {
        esc_char(s[from]) + esc_from(s, from + 1)
    }
}

/// A JSON string literal: quotes around the escaped content.
pub open spec fn str_text(s: Seq<char>) -> Seq<char> {
    seq!['"'] + esc_from(s, 0) + seq!['"']
}

/// Pretty-printed text of a JSON tree, with `pad` the indentation of the
/// surrounding context: two more spaces per nesting level, members on
/// their own lines, `": "` between key and value.
pub open spec fn json_text(v: Json, pad: Seq<char>) -> Seq<char>
    decreases v, 0int, 0int,
{
    match v {
        Json::Null => seq!['n', 'u', 'l', 'l'],
        Json::Bool(b) => if b {
            seq!['t', 'r', 'u', 'e']
        } else {
            seq!['f', 'a', 'l', 's', 'e']
        },
        Json::Num(n) => dec_of(n as nat),
        Json::NumRaw(t) => t,
        Json::Str(s) => str_text(s),
        Json::Arr(items) => seq!['[']
            + (if items.len() == 0 {
                Seq::<char>::empty()
            } else {
                arr_items_text(items, 0, pad + seq![' ', ' ']) + seq!['\n'] + pad
            })
            + seq![']'],
        Json::Obj(fields) => seq!['{']
            + (if fields.len() == 0 {
                Seq::<char>::empty()
            } else {
                obj_items_text(fields, 0, pad + seq![' ', ' ']) + seq!['\n'] + pad
            })
            + seq!['}'],
    }
}

/// The array elements from `from` on: each on its own line at `pad2`,
/// a comma before every element but the first.
pub open spec fn arr_items_text(items: Seq<Json>, from: int, pad2: Seq<char>) -> Seq<char>
    decreases items, items.len() - from, 1int,
{
    if from < 0 || from >= items.len() {
        Seq::empty()
    } else {
        (if from == 0 { Seq::<char>::empty() } else { seq![','] })
            + seq!['\n'] + pad2 + json_text(items[from], pad2)
            + arr_items_text(items, from + 1, pad2)
    }
}

/// The object members from `from` on, written as the array elements are,
/// with the quoted key and `": "` before each value.
pub open spec fn obj_items_text(fields: Seq<(Seq<char>, Json)>, from: int, pad2: Seq<char>) -> Seq<char>
    decreases fields, fields.len() - from, 1int,
{
    if from < 0 || from >= fields.len() {
        Seq::empty()
    } else {
        (if from == 0 { Seq::<char>::empty() } else { seq![','] })
            + seq!['\n'] + pad2 + str_text(fields[from].0) + seq![':', ' ']
            + json_text(fields[from].1, pad2)
            + obj_items_text(fields, from + 1, pad2)
    }
}

/// Writes one character of a JSON string, escaped as `esc_char` says.
fn write_esc_char(c: char, out: &mut String)
    ensures
        final(out)@ == old(out)@ + esc_char(c),
{
    proof {
        reveal_strlit("\\\"");
        reveal_strlit("\\\\");
        reveal_strlit("\\n");
        reveal_strlit("\\r");
        reveal_strlit("\\t");
        reveal_strlit("\\u00");
    }
    if c == '"' {
        out.append("\\\"");
    } else if c == '\\' {
        out.append("\\\\");
    } else if c == '\n' {
        out.append("\\n");
    } else if c == '\r' {
        out.append("\\r");
    } else if c == '\t' {
        out.append("\\t");
    } else if (c as u32) < 0x20 {
        let u = c as u32;
        out.append("\\u00");
        out.append(hex_digit_str((u / 16) as u64));
        out.append(hex_digit_str((u % 16) as u64));
    } else {
        let s = char_to_string(c);
        out.append(s.as_str());
    }
    assert(out@ =~= old(out)@ + esc_char(c));
}

/// The hexadecimal digit character for `d` as a one-character string slice.
fn hex_digit_str(d: u64) -> (s: &'static str)
    requires
        d < 16,
    ensures
        s@ =~= seq![hex_digit(d as nat)],
{
    if d < 10 {
        dec_digit_str(d)
    } else {
        proof {
            reveal_strlit("a");
            reveal_strlit("b");
            reveal_strlit("c");
            reveal_strlit("d");
            reveal_strlit("e");
            reveal_strlit("f");
        }
        match d {
            10 => "a", 11 => "b", 12 => "c", 13 => "d", 14 => "e", _ => "f",
        }
    }
}

/// Writes the escaped content of `s` from position `from` on.
fn write_esc_from(s: &str, from: usize, out: &mut String)
    requires
        from <= s@.len(),
    ensures
        final(out)@ == old(out)@ + esc_from(s@, from as int),
    decreases s@.len() - from,
{
    if from < s.unicode_len() {
        let c = s.get_char(from);
        write_esc_char(c, out);
        write_esc_from(s, from + 1, out);
        assert(out@ =~= old(out)@ + esc_from(s@, from as int));
    } else {
        assert(out@ =~= old(out)@ + esc_from(s@, from as int));
    }
}

/// Writes `s` as a JSON string literal.
fn write_str_text(s: &str, out: &mut String)
    ensures
        final(out)@ == old(out)@ + str_text(s@),
{
    proof {
        reveal_strlit("\"");
    }
    out.append("\"");
    write_esc_from(s, 0, out);
    out.append("\"");
    assert(out@ =~= old(out)@ + str_text(s@));
}

/// Writes the pretty-printed text of `v` onto `out`, with `pad` the
/// indentation of the surrounding context, exactly as `json_text` says.
pub fn write_json(v: &JsonValue, pad: &str, out: &mut String)
    ensures
        final(out)@ == old(out)@ + json_text(v@, pad@),
    decreases v, 0int, 0int,
{
    proof {
        reveal_strlit("null");
        reveal_strlit("true");
        reveal_strlit("false");
        reveal_strlit("[");
        reveal_strlit("]");
        reveal_strlit("{");
        reveal_strlit("}");
        reveal_strlit("  ");
    }
    match v {
        JsonValue::Null => {
            out.append("null");
            assert(out@ =~= old(out)@ + json_text(v@, pad@));
        },
        JsonValue::Bool(b) => {
            if *b {
                out.append("true");
            } else {
                out.append("false");
            }
            assert(out@ =~= old(out)@ + json_text(v@, pad@));
        },
        JsonValue::Num(n) => {
            let s = u64_to_string(*n);
            out.append(s.as_str());
            assert(out@ =~= old(out)@ + json_text(v@, pad@));
        },
        JsonValue::NumRaw(t) => {
            out.append(t.as_str());
            assert(out@ =~= old(out)@ + json_text(v@, pad@));
        },
        JsonValue::Str(s) => {
            write_str_text(s.as_str(), out);
            assert(out@ =~= old(out)@ + json_text(v@, pad@));
        },
        JsonValue::Arr(items) => {
            out.append("[");
            proof {
                lemma_arr_view(items@);
            }
            if items.len() > 0 {
                let mut pad2 = String::from_str(pad);
                pad2.append("  ");
                assert(pad2@ =~= pad@ + seq![' ', ' ']);
                write_arr_items(items, 0, pad2.as_str(), out);
                out.append("\n");
                out.append(pad);
                proof {
                    reveal_strlit("\n");
                }
                assert(out@ =~= old(out)@ + seq!['[']
                    + arr_items_text(arr_view(items@), 0, pad@ + seq![' ', ' '])
                    + seq!['\n'] + pad@);
            }
            out.append("]");
            assert(out@ =~= old(out)@ + json_text(v@, pad@));
        },
        JsonValue::Obj(fields) => {
            out.append("{");
            proof {
                lemma_obj_view(fields@);
            }
            if fields.len() > 0 {
                let mut pad2 = String::from_str(pad);
                pad2.append("  ");
                assert(pad2@ =~= pad@ + seq![' ', ' ']);
                write_obj_items(fields, 0, pad2.as_str(), out);
                out.append("\n");
                out.append(pad);
                proof {
                    reveal_strlit("\n");
                }
                assert(out@ =~= old(out)@ + seq!['{']
                    + obj_items_text(obj_view(fields@), 0, pad@ + seq![' ', ' '])
                    + seq!['\n'] + pad@);
            }
            out.append("}");
            assert(out@ =~= old(out)@ + json_text(v@, pad@));
        },
    }
}

/// Writes the array elements from `from` on, as `arr_items_text` says.
fn write_arr_items(items: &Vec<JsonValue>, from: usize, pad2: &str, out: &mut String)
    requires
        from < items@.len(),
    ensures
        final(out)@ == old(out)@ + arr_items_text(arr_view(items@), from as int, pad2@),
    decreases items@, items@.len() - from, 1int,
{
    proof {
        reveal_strlit(",");
        reveal_strlit("\n");
        lemma_arr_view(items@);
    }
    if from > 0 {
        out.append(",");
    }
    out.append("\n");
    out.append(pad2);
    assert(out@ =~= old(out)@
        + (if from > 0 { seq![','] } else { Seq::<char>::empty() }) + seq!['\n'] + pad2@);
    let ghost pre = out@;
    let n = items.len();
    write_json(&items[from], pad2, out);
    assert(out@ =~= pre + json_text(items@[from as int]@, pad2@));
    let ghost post_value = out@;
    if from < n - 1 {
        write_arr_items(items, from + 1, pad2, out);
    }
    assert(out@ =~= post_value + arr_items_text(arr_view(items@), from as int + 1, pad2@));
    assert(arr_view(items@)[from as int] == items@[from as int]@);
    assert(out@ =~= old(out)@ + arr_items_text(arr_view(items@), from as int, pad2@));
}

/// Writes the object members from `from` on, as `obj_items_text` says.
#[verifier::rlimit(50)]
fn write_obj_items(fields: &Vec<(String, JsonValue)>, from: usize, pad2: &str, out: &mut String)
    requires
        from < fields@.len(),
    ensures
        final(out)@ == old(out)@ + obj_items_text(obj_view(fields@), from as int, pad2@),
    decreases fields@, fields@.len() - from, 1int,
{
    proof {
        reveal_strlit(",");
        reveal_strlit("\n");
        reveal_strlit(": ");
        lemma_obj_view(fields@);
    }
    if from > 0 {
        out.append(",");
    }
    out.append("\n");
    out.append(pad2);
    assert(out@ =~= old(out)@
        + (if from > 0 { seq![','] } else { Seq::<char>::empty() }) + seq!['\n'] + pad2@);
    let ghost pre = out@;
    let field = &fields[from];
    let n = fields.len();
    write_str_text(field.0.as_str(), out);
    out.append(": ");
    assert(out@ =~= pre + str_text(fields@[from as int].0@) + seq![':', ' ']);
    let ghost mid = out@;
    write_json(&field.1, pad2, out);
    assert(out@ =~= mid + json_text(fields@[from as int].1@, pad2@));
    let ghost post_value = out@;
    if from < n - 1 {
        write_obj_items(fields, from + 1, pad2, out);
    }
    assert(out@ =~= post_value + obj_items_text(obj_view(fields@), from as int + 1, pad2@));
    assert(obj_view(fields@)[from as int].0 == fields@[from as int].0@);
    assert(obj_view(fields@)[from as int].1 == fields@[from as int].1@);
    assert(out@ =~= old(out)@ + obj_items_text(obj_view(fields@), from as int, pad2@));
}

/// Whether `c` is JSON whitespace.
pub open spec fn is_ws(c: char) -> bool {
    c == ' ' || c == '\n' || c == '\t' || c == '\r'
}

/// The first position at or after `i` that does not hold whitespace.
pub open spec fn sp_ws(s: Seq<char>, i: int) -> int
    decreases s.len() - i,
{
    if 0 <= i < s.len() && is_ws(s[i]) {
        sp_ws(s, i + 1)
    } else {
        i
    }
}

/// Whether `c` is a decimal digit.
pub open spec fn is_digit(c: char) -> bool {
    48 <= c as u32 <= 57
}

/// The value of the decimal digit `c`.
pub open spec fn digit_val(c: char) -> u64 {
    ((c as u32) - 48) as u64
}

/// The value of a hexadecimal digit, or `None` for any other character.
pub open spec fn hex_val(c: char) -> Option<u32> {
    let u = c as u32;
    if 48 <= u <= 57 {
        Some((u - 48) as u32)
    } else if 97 <= u <= 102 {
        Some((u - 87) as u32)
    } else if 65 <= u <= 70 {
        Some((u - 55) as u32)
    } else {
        None
    }
}

/// The value of the four hexadecimal digits at `i`, where all four are
/// there.
pub open spec fn sp_ucode(s: Seq<char>, i: int) -> Option<u32> {
    if i < 0 || i + 4 > s.len() {
        None
    } else {
        match (hex_val(s[i]), hex_val(s[i + 1]), hex_val(s[i + 2]), hex_val(s[i + 3])) {
            (Some(h1), Some(h2), Some(h3), Some(h4)) => Some(
                (h1 * 4096 + h2 * 256 + h3 * 16 + h4) as u32,
            ),
            _ => None,
        }
    }
}

/// Reads the rest of a JSON string literal, `i` standing just after the
/// opening quote or the last consumed character, `acc` the content so
/// far. Escapes are the named ones and `\uXXXX` for any code point, a
/// surrogate pair standing for one character beyond 0xFFFF.
pub open spec fn sp_str_body(s: Seq<char>, i: int, acc: Seq<char>) -> Option<(Seq<char>, int)>
    decreases s.len() - i,
{
    if i < 0 || i >= s.len() {
        None
    } else {
        let c = s[i];
        if c == '"' {
            Some((acc, i + 1))
        } else if c == '\\' {
            if i + 1 >= s.len() {
                None
            } else {
                let e = s[i + 1];
                if e == '"' { sp_str_body(s, i + 2, acc.push('"')) }
                else if e == '\\' { sp_str_body(s, i + 2, acc.push('\\')) }
                else if e == '/' { sp_str_body(s, i + 2, acc.push('/')) }
                else if e == 'n' { sp_str_body(s, i + 2, acc.push('\n')) }
                else if e == 'r' { sp_str_body(s, i + 2, acc.push('\r')) }
                else if e == 't' { sp_str_body(s, i + 2, acc.push('\t')) }
                else if e == 'b' { sp_str_body(s, i + 2, acc.push('\u{8}')) }
                else if e == 'f' { sp_str_body(s, i + 2, acc.push('\u{c}')) }
                else if e == 'u' {
                    match sp_ucode(s, i + 2) {
                        Some(code) => if 0xD800 <= code < 0xDC00 {
                            if i + 12 <= s.len() && s[i + 6] == '\\' && s[i + 7] == 'u' {
                                match sp_ucode(s, i + 8) {
                                    Some(lo) => if 0xDC00 <= lo < 0xE000 {
                                        sp_str_body(s, i + 12, acc.push(
                                            ((0x10000 + (code - 0xD800) * 0x400
                                                + (lo - 0xDC00)) as u32) as char,
                                        ))
                                    } else {
                                        None
                                    },
                                    None => None,
                                }
                            } else {
                                None
                            }
                        } else if 0xDC00 <= code < 0xE000 {
                            None
                        } else {
                            sp_str_body(s, i + 6, acc.push(code as char))
                        },
                        None => None,
                    }
                } else {
                    None
                }
            }
        } else if (c as u32) < 0x20 {
            None
        } else {
            sp_str_body(s, i + 1, acc.push(c))
        }
    }
}

/// Reads a JSON string literal starting at the opening quote.
pub open spec fn sp_string(s: Seq<char>, i: int) -> Option<(Seq<char>, int)> {
    if 0 <= i < s.len() && s[i] == '"' {
        sp_str_body(s, i + 1, Seq::empty())
    } else {
        None
    }
}

/// Reads decimal digits from `i` on into `acc`; `None` past `u64::MAX`.
pub open spec fn sp_digits(s: Seq<char>, i: int, acc: u64) -> Option<(u64, int)>
    decreases s.len() - i,
{
    if 0 <= i < s.len() && is_digit(s[i]) {
        let d = digit_val(s[i]);
        if acc > (u64::MAX - d) / 10 {
            None
        } else {
            sp_digits(s, i + 1, (acc * 10 + d) as u64)
        }
    } else {
        Some((acc, i))
    }
}

/// The first position at or after `i` that does not hold a digit.
pub open spec fn sp_digits_end(s: Seq<char>, i: int) -> int
    decreases s.len() - i,
{
    if 0 <= i < s.len() && is_digit(s[i]) {
        sp_digits_end(s, i + 1)
    } else {
        i
    }
}

/// Reads a JSON number literal at `i`: an optional minus, an integer
/// part (a lone zero or digits without a leading zero), an optional
/// fraction and an optional exponent. A plain unsigned integer that
/// fits 64 bits becomes `Num`; every other literal is kept whole as
/// `NumRaw`, its text as it stands.
pub open spec fn sp_number(s: Seq<char>, i: int) -> Option<(Json, int)> {
    if i < 0 {
        None
    } else {
        let j = if i < s.len() && s[i] == '-' { i + 1 } else { i };
        if !(j < s.len() && is_digit(s[j])) {
            None
        } else {
            let int_end = if s[j] == '0' { j + 1 } else { sp_digits_end(s, j) };
            let frac_end = if int_end < s.len() && s[int_end] == '.' {
                if int_end + 1 < s.len() && is_digit(s[int_end + 1]) {
                    sp_digits_end(s, int_end + 1)
                } else {
                    -1
                }
            } else {
                int_end
            };
            if frac_end < 0 {
                None
            } else {
                let exp_start = if frac_end < s.len() && (s[frac_end] == 'e' || s[frac_end] == 'E') {
                    if frac_end + 1 < s.len() && (s[frac_end + 1] == '+' || s[frac_end + 1] == '-') {
                        frac_end + 2
                    } else {
                        frac_end + 1
                    }
                } else {
                    frac_end
                };
                let end = if exp_start == frac_end {
                    frac_end
                } else if exp_start < s.len() && is_digit(s[exp_start]) {
                    sp_digits_end(s, exp_start)
                } else {
                    -1
                };
                if end < 0 {
                    None
                } else if j == i && frac_end == int_end && end == frac_end {
                    if s[j] == '0' {
                        Some((Json::Num(0), int_end))
                    } else {
                        match sp_digits(s, j, 0) {
                            Some((n, k)) => Some((Json::Num(n), k)),
                            None => Some((Json::NumRaw(s.subrange(i, int_end)), int_end)),
                        }
                    }
                } else {
                    Some((Json::NumRaw(s.subrange(i, end)), end))
                }
            }
        }
    }
}

/// Reads one JSON value, leading whitespace included, nesting at most
/// `depth` levels of arrays and objects.
pub open spec fn sp_value(s: Seq<char>, i: int, depth: nat) -> Option<(Json, int)>
    decreases depth, s.len() - i, 0int,
{
    let j = sp_ws(s, i);
    if j < i || j >= s.len() {
        None
    } else {
        let c = s[j];
        if c == 'n' {
            if j + 4 <= s.len() && s[j + 1] == 'u' && s[j + 2] == 'l' && s[j + 3] == 'l' {
                Some((Json::Null, j + 4))
            } else {
                None
            }
        } else if c == 't' {
            if j + 4 <= s.len() && s[j + 1] == 'r' && s[j + 2] == 'u' && s[j + 3] == 'e' {
                Some((Json::Bool(true), j + 4))
            } else {
                None
            }
        } else if c == 'f' {
            if j + 5 <= s.len() && s[j + 1] == 'a' && s[j + 2] == 'l' && s[j + 3] == 's'
                && s[j + 4] == 'e' {
                Some((Json::Bool(false), j + 5))
            } else {
                None
            }
        } else if c == '"' {
            match sp_string(s, j) {
                Some((cs, k)) => Some((Json::Str(cs), k)),
                None => None,
            }
        } else if is_digit(c) || c == '-' {
            sp_number(s, j)
        } else if c == '[' {
            if depth == 0 {
                None
            } else {
                let k = sp_ws(s, j + 1);
                if k < j + 1 {
                    None
                } else if k < s.len() && s[k] == ']' {
                    Some((Json::Arr(Seq::empty()), k + 1))
                } else {
                    match sp_elems(s, j + 1, (depth - 1) as nat, Seq::empty()) {
                        Some((es, m)) => Some((Json::Arr(es), m)),
                        None => None,
                    }
                }
            }
        } else if c == '{' {
            if depth == 0 {
                None
            } else {
                let k = sp_ws(s, j + 1);
                if k < j + 1 {
                    None
                } else if k < s.len() && s[k] == '}' {
                    Some((Json::Obj(Seq::empty()), k + 1))
                } else {
                    match sp_members(s, j + 1, (depth - 1) as nat, Seq::empty()) {
                        Some((fs, m)) => Some((Json::Obj(fs), m)),
                        None => None,
                    }
                }
            }
        } else {
            None
        }
    }
}

/// Reads the elements of a non-empty array body from `i` on, `acc` the
/// elements already read, up to and including the closing bracket.
pub open spec fn sp_elems(s: Seq<char>, i: int, depth: nat, acc: Seq<Json>) -> Option<(Seq<Json>, int)>
    decreases depth, s.len() - i, 1int,
{
    match sp_value(s, i, depth) {
        None => None,
        Some((v, k)) => {
            if k <= i {
                None
            } else {
                let m = sp_ws(s, k);
                if m < k || m >= s.len() {
                    None
                } else if s[m] == ']' {
                    Some((acc.push(v), m + 1))
                } else if s[m] == ',' {
                    sp_elems(s, m + 1, depth, acc.push(v))
                } else {
                    None
                }
            }
        },
    }
}

/// Reads the members of a non-empty object body from `i` on, `acc` the
/// members already read, up to and including the closing brace.
pub open spec fn sp_members(s: Seq<char>, i: int, depth: nat, acc: Seq<(Seq<char>, Json)>) -> Option<(Seq<(Seq<char>, Json)>, int)>
    decreases depth, s.len() - i, 1int,
{
    let j = sp_ws(s, i);
    if j < i {
        None
    } else {
        match sp_string(s, j) {
            None => None,
            Some((key, k)) => {
                if k <= i {
                    None
                } else {
                    let m = sp_ws(s, k);
                    if m < k || m >= s.len() || s[m] != ':' {
                        None
                    } else {
                        match sp_value(s, m + 1, depth) {
                            None => None,
                            Some((v, p)) => {
                                if p <= m {
                                    None
                                } else {
                                    let q = sp_ws(s, p);
                                    if q < p || q >= s.len() {
                                        None
                                    } else if s[q] == '}' {
                                        Some((acc.push((key, v)), q + 1))
                                    } else if s[q] == ',' {
                                        sp_members(s, q + 1, depth, acc.push((key, v)))
                                    } else {
                                        None
                                    }
                                }
                            },
                        }
                    }
                }
            },
        }
    }
}

/// Reads a whole document: one value with nothing but whitespace after
/// it. Nesting is capped at 128 levels, the recursion limit the
/// customary JSON parsers of the ecosystem apply; anything deeper is
/// rejected there too.
pub open spec fn sp_json(s: Seq<char>) -> Option<Json> {
    match sp_value(s, 0, 128) {
        Some((v, j)) => if sp_ws(s, j) == s.len() {
            Some(v)
        } else {
            None
        },
        None => None,
    }
}

/// The pretty-printed document text of `v`, as `json_text` with no
/// surrounding indentation.
pub fn to_json_text(v: &JsonValue) -> (s: String)
    ensures
        s@ == json_text(v@, Seq::<char>::empty()),
{
    proof {
        reveal_strlit("");
    }
    let mut out = String::new();
    write_json(v, "", &mut out);
    assert(out@ =~= json_text(v@, Seq::<char>::empty()));
    out
}

/// How an executable string result must relate to its model.
pub open spec fn str_matches(r: Option<(String, usize)>, m: Option<(Seq<char>, int)>) -> bool {
    match (r, m) {
        (Some(p), Some(q)) => p.0@ == q.0 && p.1 == q.1,
        (None, None) => true,
        _ => false,
    }
}

/// How an executable value result must relate to its model.
pub open spec fn val_matches(r: Option<(JsonValue, usize)>, m: Option<(Json, int)>) -> bool {
    match (r, m) {
        (Some(p), Some(q)) => p.0@ == q.0 && p.1 == q.1,
        (None, None) => true,
        _ => false,
    }
}

/// How an executable element-list result must relate to its model.
pub open spec fn elems_matches(r: Option<(Vec<JsonValue>, usize)>, m: Option<(Seq<Json>, int)>) -> bool {
    match (r, m) {
        (Some(p), Some(q)) => arr_view(p.0@) == q.0 && p.1 == q.1,
        (None, None) => true,
        _ => false,
    }
}

/// How an executable member-list result must relate to its model.
pub open spec fn members_matches(r: Option<(Vec<(String, JsonValue)>, usize)>, m: Option<(Seq<(Seq<char>, Json)>, int)>) -> bool {
    match (r, m) {
        (Some(p), Some(q)) => obj_view(p.0@) == q.0 && p.1 == q.1,
        (None, None) => true,
        _ => false,
    }
}

/// The position after the whitespace at `i`, as `sp_ws` says.
fn ws_end(s: &str, i: usize) -> (r: usize)
    requires
        i <= s@.len(),
    ensures
        r == sp_ws(s@, i as int),
        i <= r <= s@.len(),
    decreases s@.len() - i,
{
    if i < s.unicode_len() {
        let c = s.get_char(i);
        if c == ' ' || c == '\n' || c == '\t' || c == '\r' {
            return ws_end(s, i + 1);
        }
    }
    i
}

/// The value of a hexadecimal digit, as `hex_val` says.
fn hex_val_of(c: char) -> (r: Option<u32>)
    ensures
        r == hex_val(c),
{
    let u = c as u32;
    if 48 <= u && u <= 57 {
        Some(u - 48)
    } else if 97 <= u && u <= 102 {
        Some(u - 87)
    } else if 65 <= u && u <= 70 {
        Some(u - 55)
    } else {
        None
    }
}

/// The value of the four hexadecimal digits at `i`, as `sp_ucode` says.
fn ucode(s: &str, i: usize) -> (r: Option<u32>)
    requires
        i <= s@.len(),
    ensures
        r == sp_ucode(s@, i as int),
{
    let len = s.unicode_len();
    if len - i < 4 {
        return None;
    }
    let h1 = hex_val_of(s.get_char(i));
    let h2 = hex_val_of(s.get_char(i + 1));
    let h3 = hex_val_of(s.get_char(i + 2));
    let h4 = hex_val_of(s.get_char(i + 3));
    match (h1, h2, h3, h4) {
        (Some(a), Some(b), Some(g), Some(d)) => {
            assert(a < 16 && b < 16 && g < 16 && d < 16);
            Some(a * 4096 + b * 256 + g * 16 + d)
        },
        _ => None,
    }
}

/// Reads the rest of a string literal, as `sp_str_body` says.
fn str_body(s: &str, i: usize, acc: String) -> (r: Option<(String, usize)>)
    requires
        i <= s@.len(),
    ensures
        str_matches(r, sp_str_body(s@, i as int, acc@)),
        r matches Some(p) ==> p.1 <= s@.len(),
    decreases s@.len() - i,
{
    proof {
        reveal_strlit("\"");
        reveal_strlit("\\");
        reveal_strlit("/");
        reveal_strlit("\n");
        reveal_strlit("\r");
        reveal_strlit("\t");
        reveal_strlit("\u{8}");
        reveal_strlit("\u{c}");
    }
    let ghost acc0 = acc@;
    let len = s.unicode_len();
    if i >= len {
        return None;
    }
    let c = s.get_char(i);
    if c == '"' {
        return Some((acc, i + 1));
    }
    if c == '\\' {
        if i + 1 >= len {
            return None;
        }
        let e = s.get_char(i + 1);
        if e == 'u' {
            match ucode(s, i + 2) {
                Some(code) => if 0xD800 <= code && code < 0xDC00 {
                    if len - i >= 12 && s.get_char(i + 6) == '\\' && s.get_char(i + 7) == 'u' {
                        match ucode(s, i + 8) {
                            Some(lo) => if 0xDC00 <= lo && lo < 0xE000 {
                                let cp = 0x10000 + (code - 0xD800) * 0x400 + (lo - 0xDC00);
                                match char_from_u32(cp) {
                                    Some(ch) => {
                                        let mut acc2 = acc;
                                        let cs = char_to_string(ch);
                                        acc2.append(cs.as_str());
                                        proof {
                                            lemma_char_of_code(ch, cp);
                                        }
                                        assert(acc2@ =~= acc0.push(cp as char));
                                        str_body(s, i + 12, acc2)
                                    },
                                    None => {
                                        proof {
                                            assert(false);
                                        }
                                        None
                                    },
                                }
                            } else {
                                None
                            },
                            None => None,
                        }
                    } else {
                        None
                    }
                } else if 0xDC00 <= code && code < 0xE000 {
                    None
                } else {
                    match char_from_u32(code) {
                        Some(ch) => {
                            let mut acc2 = acc;
                            let cs = char_to_string(ch);
                            acc2.append(cs.as_str());
                            proof {
                                lemma_char_of_code(ch, code);
                            }
                            assert(acc2@ =~= acc0.push(code as char));
                            str_body(s, i + 6, acc2)
                        },
                        None => {
                            proof {
                                assert(false);
                            }
                            None
                        },
                    }
                },
                None => None,
            }
        } else if e == '"' || e == '\\' || e == '/' || e == 'n' || e == 'r' || e == 't'
            || e == 'b' || e == 'f' {
            let piece: &'static str = if e == '"' { "\"" } else if e == '\\' { "\\" }
                else if e == '/' { "/" } else if e == 'n' { "\n" } else if e == 'r' { "\r" }
                else if e == 't' { "\t" } else if e == 'b' { "\u{8}" } else { "\u{c}" };
            let mut acc2 = acc;
            acc2.append(piece);
            proof {
                if e == '"' { assert(acc2@ =~= acc0.push('"')); }
                else if e == '\\' { assert(acc2@ =~= acc0.push('\\')); }
                else if e == '/' { assert(acc2@ =~= acc0.push('/')); }
                else if e == 'n' { assert(acc2@ =~= acc0.push('\n')); }
                else if e == 'r' { assert(acc2@ =~= acc0.push('\r')); }
                else if e == 't' { assert(acc2@ =~= acc0.push('\t')); }
                else if e == 'b' { assert(acc2@ =~= acc0.push('\u{8}')); }
                else { assert(acc2@ =~= acc0.push('\u{c}')); }
            }
            str_body(s, i + 2, acc2)
        } else {
            None
        }
    } else if (c as u32) < 0x20 {
        None
    } else {
        let mut acc2 = acc;
        let cs = char_to_string(c);
        acc2.append(cs.as_str());
        assert(acc2@ =~= acc0.push(c));
        str_body(s, i + 1, acc2)
    }
}

/// How an executable number result must relate to its model.
pub open spec fn num_matches(r: Option<(u64, usize)>, m: Option<(u64, int)>) -> bool {
    match (r, m) {
        (Some(p), Some(q)) => p.0 == q.0 && p.1 == q.1,
        (None, None) => true,
        _ => false,
    }
}

/// Reads a string literal at `i`, as `sp_string` says.
fn parse_string(s: &str, i: usize) -> (r: Option<(String, usize)>)
    requires
        i <= s@.len(),
    ensures
        str_matches(r, sp_string(s@, i as int)),
        r matches Some(p) ==> p.1 <= s@.len(),
{
    if i < s.unicode_len() {
        let c = s.get_char(i);
        if c == '"' {
            return str_body(s, i + 1, String::new());
        }
    }
    None
}

/// Reads decimal digits from `i` on, as `sp_digits` says.
fn parse_digits(s: &str, i: usize, acc: u64) -> (r: Option<(u64, usize)>)
    requires
        i <= s@.len(),
    ensures
        num_matches(r, sp_digits(s@, i as int, acc)),
        r matches Some(p) ==> p.1 <= s@.len(),
    decreases s@.len() - i,
{
    let len = s.unicode_len();
    if i < len {
        let c = s.get_char(i);
        let u = c as u32;
        if 48 <= u && u <= 57 {
            let d = (u - 48) as u64;
            if acc > (u64::MAX - d) / 10 {
                return None;
            }
            proof {
                assert(acc * 10 + d <= u64::MAX) by (nonlinear_arith)
                    requires
                        acc <= (u64::MAX - d) / 10,
                        d < 10,
                ;
            }
            return parse_digits(s, i + 1, acc * 10 + d);
        }
    }
    Some((acc, i))
}

/// The first position at or after `i` without a digit, as
/// `sp_digits_end` says.
fn digits_end(s: &str, i: usize) -> (r: usize)
    requires
        i <= s@.len(),
    ensures
        r == sp_digits_end(s@, i as int),
        i <= r <= s@.len(),
    decreases s@.len() - i,
{
    if i < s.unicode_len() {
        let c = s.get_char(i);
        if 48 <= c as u32 && c as u32 <= 57 {
            return digits_end(s, i + 1);
        }
    }
    i
}

/// Reads a JSON number literal, as `sp_number` says.
fn parse_number(s: &str, i: usize) -> (r: Option<(JsonValue, usize)>)
    requires
        i <= s@.len(),
    ensures
        val_matches(r, sp_number(s@, i as int)),
        r matches Some(p) ==> p.1 <= s@.len(),
{
    let len = s.unicode_len();
    let j = if i < len && s.get_char(i) == '-' { i + 1 } else { i };
    if j >= len {
        return None;
    }
    let cj = s.get_char(j);
    if !(48 <= cj as u32 && cj as u32 <= 57) {
        return None;
    }
    let int_end = if cj == '0' { j + 1 } else { digits_end(s, j) };
    let frac_end: usize;
    if int_end < len && s.get_char(int_end) == '.' {
        if int_end + 1 < len {
            let cf = s.get_char(int_end + 1);
            if 48 <= cf as u32 && cf as u32 <= 57 {
                frac_end = digits_end(s, int_end + 1);
            } else {
                return None;
            }
        } else {
            return None;
        }
    } else {
        frac_end = int_end;
    }
    let exp_start: usize;
    if frac_end < len && (s.get_char(frac_end) == 'e' || s.get_char(frac_end) == 'E') {
        if frac_end + 1 < len
            && (s.get_char(frac_end + 1) == '+' || s.get_char(frac_end + 1) == '-') {
            exp_start = frac_end + 2;
        } else {
            exp_start = frac_end + 1;
        }
    } else {
        exp_start = frac_end;
    }
    let end: usize;
    if exp_start == frac_end {
        end = frac_end;
    } else if exp_start < len {
        let ce = s.get_char(exp_start);
        if 48 <= ce as u32 && ce as u32 <= 57 {
            end = digits_end(s, exp_start);
        } else {
            return None;
        }
    } else {
        return None;
    }
    if j == i && frac_end == int_end && end == frac_end {
        if cj == '0' {
            Some((JsonValue::Num(0), int_end))
        } else {
            match parse_digits(s, j, 0) {
                Some((n, k)) => Some((JsonValue::Num(n), k)),
                None => {
                    let raw = s.substring_char(i, int_end);
                    Some((JsonValue::NumRaw(String::from_str(raw)), int_end))
                },
            }
        }
    } else {
        let raw = s.substring_char(i, end);
        Some((JsonValue::NumRaw(String::from_str(raw)), end))
    }
}

/// Reads one JSON value, as `sp_value` says.
pub fn parse_value(s: &str, i: usize, depth: u8) -> (r: Option<(JsonValue, usize)>)
    requires
        i <= s@.len(),
    ensures
        val_matches(r, sp_value(s@, i as int, depth as nat)),
        r matches Some(p) ==> p.1 <= s@.len(),
    decreases depth as int, s@.len() - i, 0int,
{
    let len = s.unicode_len();
    let j = ws_end(s, i);
    if j >= len {
        return None;
    }
    let c = s.get_char(j);
    if c == 'n' {
        if len - j >= 4 && s.get_char(j + 1) == 'u' && s.get_char(j + 2) == 'l'
            && s.get_char(j + 3) == 'l' {
            Some((JsonValue::Null, j + 4))
        } else {
            None
        }
    } else if c == 't' {
        if len - j >= 4 && s.get_char(j + 1) == 'r' && s.get_char(j + 2) == 'u'
            && s.get_char(j + 3) == 'e' {
            Some((JsonValue::Bool(true), j + 4))
        } else {
            None
        }
    } else if c == 'f' {
        if len - j >= 5 && s.get_char(j + 1) == 'a' && s.get_char(j + 2) == 'l'
            && s.get_char(j + 3) == 's' && s.get_char(j + 4) == 'e' {
            Some((JsonValue::Bool(false), j + 5))
        } else {
            None
        }
    } else if c == '"' {
        match parse_string(s, j) {
            Some((cs, k)) => Some((JsonValue::Str(cs), k)),
            None => None,
        }
    } else if (48 <= c as u32 && c as u32 <= 57) || c == '-' {
        parse_number(s, j)
    } else if c == '[' {
        if depth == 0 {
            return None;
        }
        let k = ws_end(s, j + 1);
        if k < len && s.get_char(k) == ']' {
            let out = JsonValue::Arr(Vec::new());
            assert(out@ =~= Json::Arr(Seq::<Json>::empty()));
            Some((out, k + 1))
        } else {
            match parse_elems(s, j + 1, depth - 1, Vec::new()) {
                Some((es, m)) => Some((JsonValue::Arr(es), m)),
                None => None,
            }
        }
    } else if c == '{' {
        if depth == 0 {
            return None;
        }
        let k = ws_end(s, j + 1);
        if k < len && s.get_char(k) == '}' {
            let out = JsonValue::Obj(Vec::new());
            assert(out@ =~= Json::Obj(Seq::<(Seq<char>, Json)>::empty()));
            Some((out, k + 1))
        } else {
            match parse_members(s, j + 1, depth - 1, Vec::new()) {
                Some((fs, m)) => Some((JsonValue::Obj(fs), m)),
                None => None,
            }
        }
    } else {
        None
    }
}

/// Reads the elements of a non-empty array body, as `sp_elems` says.
fn parse_elems(s: &str, i: usize, depth: u8, acc: Vec<JsonValue>) -> (r: Option<(Vec<JsonValue>, usize)>)
    requires
        i <= s@.len(),
    ensures
        elems_matches(r, sp_elems(s@, i as int, depth as nat, arr_view(acc@))),
        r matches Some(p) ==> p.1 <= s@.len(),
    decreases depth as int, s@.len() - i, 1int,
{
    let ghost acc0 = arr_view(acc@);
    match parse_value(s, i, depth) {
        None => None,
        Some((v, k)) => {
            if k <= i {
                return None;
            }
            let len = s.unicode_len();
            let m = ws_end(s, k);
            if m >= len {
                return None;
            }
            let cm = s.get_char(m);
            let ghost v0 = v;
            let ghost accv = acc@;
            let mut acc2 = acc;
            acc2.push(v);
            proof {
                assert(acc2@.drop_last() =~= accv);
                assert(acc2@.last() == v0);
                assert(arr_view(acc2@) =~= acc0.push(v0@));
            }
            if cm == ']' {
                Some((acc2, m + 1))
            } else if cm == ',' {
                parse_elems(s, m + 1, depth, acc2)
            } else {
                None
            }
        },
    }
}

/// Reads the members of a non-empty object body, as `sp_members` says.
fn parse_members(s: &str, i: usize, depth: u8, acc: Vec<(String, JsonValue)>) -> (r: Option<(Vec<(String, JsonValue)>, usize)>)
    requires
        i <= s@.len(),
    ensures
        members_matches(r, sp_members(s@, i as int, depth as nat, obj_view(acc@))),
        r matches Some(p) ==> p.1 <= s@.len(),
    decreases depth as int, s@.len() - i, 1int,
{
    let ghost acc0 = obj_view(acc@);
    let j = ws_end(s, i);
    match parse_string(s, j) {
        None => None,
        Some((key, k)) => {
            if k <= i {
                return None;
            }
            let len = s.unicode_len();
            let m = ws_end(s, k);
            if m >= len {
                return None;
            }
            if s.get_char(m) != ':' {
                return None;
            }
            match parse_value(s, m + 1, depth) {
                None => None,
                Some((v, p)) => {
                    if p <= m {
                        return None;
                    }
                    let q = ws_end(s, p);
                    if q >= len {
                        return None;
                    }
                    let cq = s.get_char(q);
                    let ghost kv = key@;
                    let ghost v0 = v;
                    let ghost k0 = key;
                    let ghost accv = acc@;
                    let mut acc2 = acc;
                    acc2.push((key, v));
                    proof {
                        assert(acc2@.drop_last() =~= accv);
                        assert(acc2@.last() == (k0, v0));
                        assert(obj_view(acc2@) =~= acc0.push((kv, v0@)));
                    }
                    if cq == '}' {
                        Some((acc2, q + 1))
                    } else if cq == ',' {
                        parse_members(s, q + 1, depth, acc2)
                    } else {
                        None
                    }
                },
            }
        },
    }
}

/// Parses a whole document, as `sp_json` says: one value with nothing
/// but whitespace after it.
pub fn parse_json(s: &str) -> (r: Option<JsonValue>)
    ensures
        match (r, sp_json(s@)) {
            (Some(v), Some(m)) => v@ == m,
            (None, None) => true,
            _ => false,
        },
{
    match parse_value(s, 0, 128) {
        Some((v, j)) => {
            let e = ws_end(s, j);
            if e == s.unicode_len() {
                Some(v)
            } else {
                None
            }
        },
        None => None,
    }
}

/// The value of `key` among an object's fields; with a repeated key the
/// later field wins, as a map built by insertion would have it.
pub open spec fn obj_get(fields: Seq<(Seq<char>, Json)>, key: Seq<char>) -> Option<Json>
    decreases fields.len(),
{
    if fields.len() == 0 {
        None
    } else if fields.last().0 == key {
        Some(fields.last().1)
    } else {
        obj_get(fields.drop_last(), key)
    }
}

/// The value of `key` among the first `upto` fields, as `obj_get` on
/// that prefix says.
pub(crate) fn obj_get_upto<'a>(fields: &'a Vec<(String, JsonValue)>, upto: usize, key: &String) -> (r: Option<&'a JsonValue>)
    requires
        upto <= fields@.len(),
    ensures
        match (r, obj_get(obj_view(fields@).take(upto as int), key@)) {
            (Some(v), Some(m)) => v@ == m,
            (None, None) => true,
            _ => false,
        },
    decreases upto,
{
    proof {
        lemma_obj_view(fields@);
    }
    if upto == 0 {
        assert(obj_view(fields@).take(0) =~= Seq::empty());
        None
    } else {
        let ghost pre = obj_view(fields@).take(upto as int);
        assert(pre.last() == obj_view(fields@)[upto - 1]);
        assert(pre.drop_last() =~= obj_view(fields@).take(upto - 1));
        let f = &fields[upto - 1];
        if f.0 == *key {
            Some(&f.1)
        } else {
            obj_get_upto(fields, upto - 1, key)
        }
    }
}

/// The value of `key` among an object's fields, as `obj_get` says.
pub(crate) fn obj_field<'a>(fields: &'a Vec<(String, JsonValue)>, key: &String) -> (r: Option<&'a JsonValue>)
    ensures
        match (r, obj_get(obj_view(fields@), key@)) {
            (Some(v), Some(m)) => v@ == m,
            (None, None) => true,
            _ => false,
        },
{
    proof {
        lemma_obj_view(fields@);
        assert(obj_view(fields@).take(fields@.len() as int) =~= obj_view(fields@));
    }
    obj_get_upto(fields, fields.len(), key)
}


/// A mandatory string field.
pub open spec fn str_field(fields: Seq<(Seq<char>, Json)>, key: Seq<char>) -> Option<Seq<char>> {
    match obj_get(fields, key) {
        Some(Json::Str(s)) => Some(s),
        _ => None,
    }
}


/// A mandatory string field of an object, as `str_field` says.
pub(crate) fn get_string_field(fields: &Vec<(String, JsonValue)>, key: &String) -> (r: Option<String>)
    ensures
        match (r, str_field(obj_view(fields@), key@)) {
            (Some(s), Some(m)) => s@ == m,
            (None, None) => true,
            _ => false,
        },
{
    match obj_field(fields, key) {
        Some(JsonValue::Str(s)) => Some(s.clone()),
        _ => None,
    }
}


/// `obj_get` finds the field at `i` when no later field carries its key.
pub proof fn lemma_obj_get_at(fields: Seq<(Seq<char>, Json)>, key: Seq<char>, i: int)
    requires
        0 <= i < fields.len(),
        fields[i].0 == key,
        forall|j: int| i < j < fields.len() ==> (#[trigger] fields[j].0) != key,
    ensures
        obj_get(fields, key) == Some(fields[i].1),
    decreases fields.len(),
{
    if i == fields.len() - 1 {
        assert(fields.last() == fields[i]);
    } else {
        assert(fields.last() == fields[fields.len() - 1]);
        assert(fields.last().0 != key);
        assert forall|j: int| i < j < fields.drop_last().len() implies (#[trigger] fields
            .drop_last()[j].0) != key by {
            assert(fields.drop_last()[j] == fields[j]);
        }
        assert(fields.drop_last()[i] == fields[i]);
        lemma_obj_get_at(fields.drop_last(), key, i);
    }
}

/// A mandatory unsigned field.
pub open spec fn num_field(fields: Seq<(Seq<char>, Json)>, key: Seq<char>) -> Option<u64> {
    match obj_get(fields, key) {
        Some(Json::Num(n)) => Some(n),
        _ => None,
    }
}

/// A mandatory boolean field.
pub open spec fn bool_field(fields: Seq<(Seq<char>, Json)>, key: Seq<char>) -> Option<bool> {
    match obj_get(fields, key) {
        Some(Json::Bool(b)) => Some(b),
        _ => None,
    }
}

/// A mandatory unsigned field of an object, as `num_field` says.
pub(crate) fn get_u64_field(fields: &Vec<(String, JsonValue)>, key: &String) -> (r: Option<u64>)
    ensures
        r == num_field(obj_view(fields@), key@),
{
    match obj_field(fields, key) {
        Some(JsonValue::Num(n)) => Some(*n),
        _ => None,
    }
}

/// A mandatory boolean field of an object, as `bool_field` says.
pub(crate) fn get_bool_field(fields: &Vec<(String, JsonValue)>, key: &String) -> (r: Option<bool>)
    ensures
        r == bool_field(obj_view(fields@), key@),
{
    match obj_field(fields, key) {
        Some(JsonValue::Bool(b)) => Some(*b),
        _ => None,
    }
}

} // verus!
