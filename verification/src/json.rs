//! A small JSON representation for the control-plane protocol: values,
//! a canonical printer, and a parser, all over UTF-8 bytes as they travel on
//! the pipe.
//!
//! The printer emits compact JSON (no whitespace); the parser accepts
//! whitespace between tokens, the common escapes, and `\u00XX` escapes for
//! control characters. Strings carry their decoded UTF-8 content bytes.

use crate::text::spec_decimal_bytes;
use vstd::prelude::*;

verus! {

/// A JSON value. Numbers in this protocol are unsigned integers; strings
/// hold decoded content bytes (UTF-8, unescaped); objects keep their fields
/// in order.
pub enum JsonValue {
    Null,
    Bool(bool),
    UInt(u64),
    Str(Vec<u8>),
    Arr(Vec<JsonValue>),
    Obj(Vec<(Vec<u8>, JsonValue)>),
}

/// The mathematical shape of a JSON value.
#[verifier::ext_equal]
pub enum SpecJson {
    Null,
    Bool(bool),
    UInt(u64),
    Str(Seq<u8>),
    Arr(Seq<SpecJson>),
    Obj(Seq<(Seq<u8>, SpecJson)>),
}

/// The mathematical value of a `JsonValue`.
pub open spec fn jv_view(v: JsonValue) -> SpecJson
    decreases v,
{
    match v {
        JsonValue::Null => SpecJson::Null,
        JsonValue::Bool(b) => SpecJson::Bool(b),
        JsonValue::UInt(n) => SpecJson::UInt(n),
        JsonValue::Str(s) => SpecJson::Str(s@),
        JsonValue::Arr(items) => SpecJson::Arr(
            Seq::new(
                items@.len(),
                |i: int|
                    if 0 <= i < items@.len() {
                        jv_view(items@[i])
                    } else {
                        SpecJson::Null
                    },
            ),
        ),
        JsonValue::Obj(fields) => SpecJson::Obj(
            Seq::new(
                fields@.len(),
                |i: int|
                    if 0 <= i < fields@.len() {
                        (fields@[i].0@, jv_view(fields@[i].1))
                    } else {
                        (Seq::empty(), SpecJson::Null)
                    },
            ),
        ),
    }
}

impl View for JsonValue {
    type V = SpecJson;

    open spec fn view(&self) -> SpecJson {
        jv_view(*self)
    }
}

/// The hexadecimal digit byte (lowercase) for a value below sixteen.
pub open spec fn hex_digit(d: int) -> u8 {
    if d < 10 {
        (48 + d) as u8
    } else {
        (87 + d) as u8
    }
}

/// How one content byte appears inside a printed JSON string: quote and
/// backslash get a backslash escape, the common control characters their
/// named escapes, other control bytes a `\u00XX` escape, and everything else
/// stands as itself.
pub open spec fn spec_escape_byte(b: u8) -> Seq<u8> {
    if b == 34 {
        seq![92u8, 34u8]
    } else if b == 92 {
        seq![92u8, 92u8]
    } else if b == 10 {
        seq![92u8, 110u8]
    } else if b == 13 {
        seq![92u8, 114u8]
    } else if b == 9 {
        seq![92u8, 116u8]
    } else if b < 32 {
        seq![92u8, 117u8, 48u8, 48u8, hex_digit(b as int / 16), hex_digit(b as int % 16)]
    } else {
        seq![b]
    }
}

/// The escaped form of string content, from position `from` on.
pub open spec fn spec_escape(s: Seq<u8>, from: int) -> Seq<u8>
    decreases s.len() - from,
{
    if from < 0 || from >= s.len() {
        Seq::empty()
    } else {
        spec_escape_byte(s[from]) + spec_escape(s, from + 1)
    }
}

/// The canonical (compact) printing of a JSON value.
pub open spec fn spec_print(v: SpecJson) -> Seq<u8>
    decreases v,
{
    match v {
        SpecJson::Null => seq![110u8, 117u8, 108u8, 108u8],
        SpecJson::Bool(b) => if b {
            seq![116u8, 114u8, 117u8, 101u8]
        } else {
            seq![102u8, 97u8, 108u8, 115u8, 101u8]
        },
        SpecJson::UInt(n) => spec_decimal_bytes(n as int),
        SpecJson::Str(s) => seq![34u8] + spec_escape(s, 0) + seq![34u8],
        SpecJson::Arr(items) => seq![91u8] + spec_print_items(items, 0) + seq![93u8],
        SpecJson::Obj(fields) => seq![123u8] + spec_print_fields(fields, 0) + seq![125u8],
    }
}

/// The printed elements of an array from position `from` on, separated by
/// commas.
pub open spec fn spec_print_items(items: Seq<SpecJson>, from: int) -> Seq<u8>
    decreases items, items.len() - from,
{
    if from < 0 || from >= items.len() {
        Seq::empty()
    } else if from == items.len() - 1 {
        spec_print(items[from])
    } else {
        spec_print(items[from]) + seq![44u8] + spec_print_items(items, from + 1)
    }
}

/// The printed fields of an object from position `from` on: quoted key,
/// colon, value, separated by commas.
pub open spec fn spec_print_fields(fields: Seq<(Seq<u8>, SpecJson)>, from: int) -> Seq<u8>
    decreases fields, fields.len() - from,
{
    if from < 0 || from >= fields.len() {
        Seq::empty()
    } else {
        let entry = seq![34u8] + spec_escape(fields[from].0, 0) + seq![34u8, 58u8] + spec_print(
            fields[from].1,
        );
        if from == fields.len() - 1 {
            entry
        } else {
            entry + seq![44u8] + spec_print_fields(fields, from + 1)
        }
    }
}

fn push_escaped_byte(out: &mut Vec<u8>, b: u8)
    ensures
        final(out)@ == old(out)@ + spec_escape_byte(b),
{
    if b == 34 {
        out.push(92);
        out.push(34);
    } else if b == 92 {
        out.push(92);
        out.push(92);
    } else if b == 10 {
        out.push(92);
        out.push(110);
    } else if b == 13 {
        out.push(92);
        out.push(114);
    } else if b == 9 {
        out.push(92);
        out.push(116);
    } else if b < 32 {
        out.push(92);
        out.push(117);
        out.push(48);
        out.push(48);
        let hi = b / 16;
        let lo = b % 16;
        out.push(
            if hi < 10 {
                48 + hi
            } else {
                87 + hi
            },
        );
        out.push(
            if lo < 10 {
                48 + lo
            } else {
                87 + lo
            },
        );
    } else {
        out.push(b);
    }
    proof {
        assert(out@ =~= old(out)@ + spec_escape_byte(b));
    }
}

fn push_escaped(out: &mut Vec<u8>, s: &Vec<u8>, from: usize)
    requires
        from <= s@.len(),
    ensures
        final(out)@ == old(out)@ + spec_escape(s@, from as int),
    decreases s@.len() - from,
{
    if from < s.len() {
        push_escaped_byte(out, s[from]);
        push_escaped(out, s, from + 1);
        proof {
            assert((old(out)@ + spec_escape_byte(s@[from as int])) + spec_escape(
                s@,
                from as int + 1,
            ) =~= old(out)@ + spec_escape(s@, from as int));
        }
    } else {
        proof {
            assert(old(out)@ + spec_escape(s@, from as int) =~= old(out)@);
        }
    }
}

/// Appends the canonical printing of `v` to `out`.
pub fn print_json_into(v: &JsonValue, out: &mut Vec<u8>)
    ensures
        final(out)@ == old(out)@ + spec_print(v@),
    decreases *v,
{
    match v {
        JsonValue::Null => {
            out.push(110);
            out.push(117);
            out.push(108);
            out.push(108);
            proof {
                assert(out@ =~= old(out)@ + spec_print(v@));
            }
        },
        JsonValue::Bool(b) => {
            if *b {
                out.push(116);
                out.push(114);
                out.push(117);
                out.push(101);
            } else {
                out.push(102);
                out.push(97);
                out.push(108);
                out.push(115);
                out.push(101);
            }
            proof {
                assert(out@ =~= old(out)@ + spec_print(v@));
            }
        },
        JsonValue::UInt(n) => {
            crate::text::push_decimal_bytes(out, *n);
        },
        JsonValue::Str(s) => {
            out.push(34);
            push_escaped(out, s, 0);
            out.push(34);
            proof {
                assert(out@ =~= old(out)@ + spec_print(v@));
            }
        },
        JsonValue::Arr(items) => {
            out.push(91);
            print_items_into(items, 0, out);
            out.push(93);
            proof {
                lemma_view_arr(*items);
                assert(out@ =~= old(out)@ + spec_print(v@));
            }
        },
        JsonValue::Obj(fields) => {
            out.push(123);
            print_fields_into(fields, 0, out);
            out.push(125);
            proof {
                lemma_view_obj(*fields);
                assert(out@ =~= old(out)@ + spec_print(v@));
            }
        },
    }
}

/// Unfolds the view of an array value to the views of its elements.
pub proof fn lemma_view_arr(items: Vec<JsonValue>)
    ensures
        jv_view(JsonValue::Arr(items)) == SpecJson::Arr(jv_views(items@)),
{
    let s = jv_view(JsonValue::Arr(items))->Arr_0;
    assert(s =~= jv_views(items@));
}

/// Unfolds the view of an object value to the views of its fields.
pub proof fn lemma_view_obj(fields: Vec<(Vec<u8>, JsonValue)>)
    ensures
        jv_view(JsonValue::Obj(fields)) == SpecJson::Obj(jv_field_views(fields@)),
{
    let s = jv_view(JsonValue::Obj(fields))->Obj_0;
    assert(s =~= jv_field_views(fields@));
}

/// The views of a list of values.
pub open spec fn jv_views(items: Seq<JsonValue>) -> Seq<SpecJson> {
    Seq::new(items.len(), |i: int| jv_view(items[i]))
}

/// The views of a list of fields.
pub open spec fn jv_field_views(fields: Seq<(Vec<u8>, JsonValue)>) -> Seq<(Seq<u8>, SpecJson)> {
    Seq::new(fields.len(), |i: int| (fields[i].0@, jv_view(fields[i].1)))
}

fn print_items_into(items: &Vec<JsonValue>, from: usize, out: &mut Vec<u8>)
    requires
        from <= items@.len(),
    ensures
        final(out)@ == old(out)@ + spec_print_items(jv_views(items@), from as int),
    decreases items@, items@.len() - from,
{
    if from < items.len() {
        print_json_into(&items[from], out);
        if from + 1 < items.len() {
            out.push(44);
            print_items_into(items, from + 1, out);
            proof {
                assert(out@ =~= old(out)@ + spec_print_items(jv_views(items@), from as int));
            }
        } else {
            proof {
                assert(out@ =~= old(out)@ + spec_print_items(jv_views(items@), from as int));
            }
        }
    } else {
        proof {
            assert(out@ =~= old(out)@ + spec_print_items(jv_views(items@), from as int));
        }
    }
}

fn print_fields_into(fields: &Vec<(Vec<u8>, JsonValue)>, from: usize, out: &mut Vec<u8>)
    requires
        from <= fields@.len(),
    ensures
        final(out)@ == old(out)@ + spec_print_fields(jv_field_views(fields@), from as int),
    decreases fields@, fields@.len() - from,
{
    if from < fields.len() {
        out.push(34);
        push_escaped(out, &fields[from].0, 0);
        out.push(34);
        out.push(58);
        print_json_into(&fields[from].1, out);
        if from + 1 < fields.len() {
            out.push(44);
            print_fields_into(fields, from + 1, out);
            proof {
                assert(out@ =~= old(out)@ + spec_print_fields(jv_field_views(fields@), from as int));
            }
        } else {
            proof {
                assert(out@ =~= old(out)@ + spec_print_fields(jv_field_views(fields@), from as int));
            }
        }
    } else {
        proof {
            assert(out@ =~= old(out)@ + spec_print_fields(jv_field_views(fields@), from as int));
        }
    }
}

/// Prints `v` as a fresh byte buffer.
pub fn print_json(v: &JsonValue) -> (out: Vec<u8>)
    ensures
        out@ == spec_print(v@),
{
    let mut out: Vec<u8> = Vec::new();
    print_json_into(v, &mut out);
    proof {
        assert(Seq::<u8>::empty() + spec_print(v@) =~= spec_print(v@));
    }
    out
}

/// A byte sequence is a JSON document when it is the canonical printing of
/// some value.
pub open spec fn is_json_document(s: Seq<u8>) -> bool {
    exists|v: SpecJson| s == spec_print(v)
}

/// JSON whitespace.
pub open spec fn is_ws(b: u8) -> bool {
    b == 32 || b == 9 || b == 10 || b == 13
}

/// The first position at or after `i` that does not hold whitespace.
pub open spec fn spec_skip_ws(s: Seq<u8>, i: int) -> int
    decreases s.len() - i,
{
    if 0 <= i < s.len() && is_ws(s[i]) {
        spec_skip_ws(s, i + 1)
    } else {
        i
    }
}

fn skip_ws(s: &[u8], i: usize) -> (j: usize)
    requires
        i <= s@.len(),
    ensures
        j == spec_skip_ws(s@, i as int),
        i <= j <= s@.len(),
    decreases s@.len() - i,
{
    if i < s.len() && (s[i] == 32 || s[i] == 9 || s[i] == 10 || s[i] == 13) {
        skip_ws(s, i + 1)
    } else {
        i
    }
}

/// An ASCII decimal digit.
pub open spec fn is_digit(b: u8) -> bool {
    48 <= b <= 57
}

/// Digits accumulated left to right into an unsigned value; a number too
/// large for 64 bits is malformed.
pub open spec fn spec_parse_digits(s: Seq<u8>, i: int, acc: u64) -> Option<(u64, int)>
    decreases s.len() - i,
{
    if 0 <= i < s.len() && is_digit(s[i]) {
        let d = (s[i] - 48) as u64;
        if acc > (u64::MAX - d) / 10 {
            None
        } else {
            spec_parse_digits(s, i + 1, (10 * acc + d) as u64)
        }
    } else {
        Some((acc, i))
    }
}

fn parse_digits_at(s: &[u8], i: usize, acc: u64) -> (r: Option<(u64, usize)>)
    requires
        i <= s@.len(),
    ensures
        match r {
            Some((v, n)) => spec_parse_digits(s@, i as int, acc) == Some((v, n as int)) && i <= n
                <= s@.len(),
            None => spec_parse_digits(s@, i as int, acc) is None,
        },
    decreases s@.len() - i,
{
    if i < s.len() && 48 <= s[i] && s[i] <= 57 {
        let d: u64 = (s[i] - 48) as u64;
        if acc > (u64::MAX - d) / 10 {
            None
        } else {
            proof {
                vstd::arithmetic::div_mod::lemma_fundamental_div_mod((u64::MAX - d) as int, 10);
                assert(10 * acc + d <= u64::MAX);
            }
            parse_digits_at(s, i + 1, 10 * acc + d)
        }
    } else {
        Some((acc, i))
    }
}

/// An ASCII hexadecimal digit.
pub open spec fn is_hex(b: u8) -> bool {
    is_digit(b) || (97 <= b <= 102) || (65 <= b <= 70)
}

/// The value of a hexadecimal digit.
pub open spec fn hex_val(b: u8) -> int {
    if is_digit(b) {
        b - 48
    } else if 97 <= b <= 102 {
        b - 87
    } else {
        b - 55
    }
}

fn hex_value(b: u8) -> (v: u8)
    requires
        is_hex(b),
    ensures
        v == hex_val(b),
        v < 16,
{
    if 48 <= b && b <= 57 {
        b - 48
    } else if 97 <= b && b <= 102 {
        b - 87
    } else {
        b - 55
    }
}

/// String content parsed from position `i` (just past the opening quote)
/// until the closing quote, unescaping as it goes: the backslash escapes for
/// quote, backslash, slash, the named control characters, and `\u00XX`.
/// A raw control byte or an unknown escape is malformed.
pub open spec fn spec_parse_string(s: Seq<u8>, i: int, acc: Seq<u8>) -> Option<(Seq<u8>, int)>
    decreases s.len() - i,
{
    if !(0 <= i < s.len()) {
        None
    } else if s[i] == 34 {
        Some((acc, i + 1))
    } else if s[i] == 92 {
        if s.len() - i >= 2 {
            let e = s[i + 1];
            if e == 34 || e == 92 || e == 47 {
                spec_parse_string(s, i + 2, acc.push(e))
            } else if e == 110 {
                spec_parse_string(s, i + 2, acc.push(10))
            } else if e == 114 {
                spec_parse_string(s, i + 2, acc.push(13))
            } else if e == 116 {
                spec_parse_string(s, i + 2, acc.push(9))
            } else if e == 98 {
                spec_parse_string(s, i + 2, acc.push(8))
            } else if e == 102 {
                spec_parse_string(s, i + 2, acc.push(12))
            } else if e == 117 {
                if s.len() - i >= 6 && s[i + 2] == 48 && s[i + 3] == 48 && is_hex(s[i + 4])
                    && is_hex(s[i + 5]) {
                    spec_parse_string(
                        s,
                        i + 6,
                        acc.push((hex_val(s[i + 4]) * 16 + hex_val(s[i + 5])) as u8),
                    )
                } else {
                    None
                }
            } else {
                None
            }
        } else {
            None
        }
    } else if s[i] < 32 {
        None
    } else {
        spec_parse_string(s, i + 1, acc.push(s[i]))
    }
}

fn parse_string_at(s: &[u8], i: usize, acc: Vec<u8>) -> (r: Option<(Vec<u8>, usize)>)
    requires
        i <= s@.len(),
    ensures
        match r {
            Some((c, n)) => spec_parse_string(s@, i as int, acc@) == Some((c@, n as int)) && i < n
                <= s@.len(),
            None => spec_parse_string(s@, i as int, acc@) is None,
        },
    decreases s@.len() - i,
{
    if i >= s.len() {
        None
    } else if s[i] == 34 {
        Some((acc, i + 1))
    } else if s[i] == 92 {
        if s.len() - i >= 2 {
            let e = s[i + 1];
            let mut acc = acc;
            if e == 34 || e == 92 || e == 47 {
                acc.push(e);
                parse_string_at(s, i + 2, acc)
            } else if e == 110 {
                acc.push(10);
                parse_string_at(s, i + 2, acc)
            } else if e == 114 {
                acc.push(13);
                parse_string_at(s, i + 2, acc)
            } else if e == 116 {
                acc.push(9);
                parse_string_at(s, i + 2, acc)
            } else if e == 98 {
                acc.push(8);
                parse_string_at(s, i + 2, acc)
            } else if e == 102 {
                acc.push(12);
                parse_string_at(s, i + 2, acc)
            } else if e == 117 {
                if s.len() - i >= 6 && s[i + 2] == 48 && s[i + 3] == 48 && (48 <= s[i + 4] && s[i
                    + 4] <= 57 || 97 <= s[i + 4] && s[i + 4] <= 102 || 65 <= s[i + 4] && s[i + 4]
                    <= 70) && (48 <= s[i + 5] && s[i + 5] <= 57 || 97 <= s[i + 5] && s[i + 5] <= 102
                    || 65 <= s[i + 5] && s[i + 5] <= 70) {
                    let b: u8 = hex_value(s[i + 4]) * 16 + hex_value(s[i + 5]);
                    acc.push(b);
                    parse_string_at(s, i + 6, acc)
                } else {
                    None
                }
            } else {
                None
            }
        } else {
            None
        }
    } else if s[i] < 32 {
        None
    } else {
        let mut acc = acc;
        acc.push(s[i]);
        parse_string_at(s, i + 1, acc)
    }
}

/// A JSON value parsed from position `i` on, after optional whitespace:
/// `null`, `true`, `false`, an unsigned number, a string, an array or an
/// object. Returns the value and the position just past it.
pub open spec fn spec_parse_value(s: Seq<u8>, i: int) -> Option<(SpecJson, int)>
    decreases s.len() - i, 1int,
{
    let j = spec_skip_ws(s, i);
    if j < i || j >= s.len() {
        None
    } else {
        let b = s[j];
        if b == 110 {
            if j + 4 <= s.len() && s[j + 1] == 117 && s[j + 2] == 108 && s[j + 3] == 108 {
                Some((SpecJson::Null, j + 4))
            } else {
                None
            }
        } else if b == 116 {
            if j + 4 <= s.len() && s[j + 1] == 114 && s[j + 2] == 117 && s[j + 3] == 101 {
                Some((SpecJson::Bool(true), j + 4))
            } else {
                None
            }
        } else if b == 102 {
            if j + 5 <= s.len() && s[j + 1] == 97 && s[j + 2] == 108 && s[j + 3] == 115 && s[j + 4]
                == 101 {
                Some((SpecJson::Bool(false), j + 5))
            } else {
                None
            }
        } else if b == 34 {
            match spec_parse_string(s, j + 1, Seq::empty()) {
                Some((c, n)) => Some((SpecJson::Str(c), n)),
                None => None,
            }
        } else if is_digit(b) {
            match spec_parse_digits(s, j, 0) {
                Some((v, n)) => Some((SpecJson::UInt(v), n)),
                None => None,
            }
        } else if b == 91 {
            match spec_parse_elems(s, j + 1) {
                Some((items, n)) => Some((SpecJson::Arr(items), n)),
                None => None,
            }
        } else if b == 123 {
            match spec_parse_members(s, j + 1) {
                Some((fields, n)) => Some((SpecJson::Obj(fields), n)),
                None => None,
            }
        } else {
            None
        }
    }
}

/// Array elements parsed from position `i` (just past the opening bracket)
/// until the closing bracket.
pub open spec fn spec_parse_elems(s: Seq<u8>, i: int) -> Option<(Seq<SpecJson>, int)>
    decreases s.len() - i, 2int,
{
    let j = spec_skip_ws(s, i);
    if j < i || j >= s.len() {
        None
    } else if s[j] == 93 {
        Some((Seq::empty(), j + 1))
    } else {
        match spec_parse_value(s, i) {
            Some((v, n)) => {
                if n <= i {
                    None
                } else {
                    let k = spec_skip_ws(s, n);
                    if k < n || k >= s.len() {
                        None
                    } else if s[k] == 44 {
                        match spec_parse_elems(s, k + 1) {
                            Some((rest, m)) => Some((seq![v] + rest, m)),
                            None => None,
                        }
                    } else if s[k] == 93 {
                        Some((seq![v], k + 1))
                    } else {
                        None
                    }
                }
            },
            None => None,
        }
    }
}

/// Object fields parsed from position `i` (just past the opening brace)
/// until the closing brace.
pub open spec fn spec_parse_members(s: Seq<u8>, i: int) -> Option<(Seq<(Seq<u8>, SpecJson)>, int)>
    decreases s.len() - i, 2int,
{
    let j = spec_skip_ws(s, i);
    if j < i || j >= s.len() {
        None
    } else if s[j] == 125 {
        Some((Seq::empty(), j + 1))
    } else if s[j] != 34 {
        None
    } else {
        match spec_parse_string(s, j + 1, Seq::empty()) {
            Some((key, n)) => {
                if n <= j + 1 {
                    None
                } else {
                    let c = spec_skip_ws(s, n);
                    if c < n || c >= s.len() || s[c] != 58 {
                        None
                    } else {
                        match spec_parse_value(s, c + 1) {
                            Some((v, m)) => {
                                if m <= i {
                                    None
                                } else {
                                    let k = spec_skip_ws(s, m);
                                    if k < m || k >= s.len() {
                                        None
                                    } else if s[k] == 44 {
                                        match spec_parse_members(s, k + 1) {
                                            Some((rest, e)) => Some((seq![(key, v)] + rest, e)),
                                            None => None,
                                        }
                                    } else if s[k] == 125 {
                                        Some((seq![(key, v)], k + 1))
                                    } else {
                                        None
                                    }
                                }
                            },
                            None => None,
                        }
                    }
                }
            },
            None => None,
        }
    }
}

fn parse_value_at(s: &[u8], i: usize) -> (r: Option<(JsonValue, usize)>)
    requires
        i <= s@.len(),
    ensures
        match r {
            Some((v, n)) => spec_parse_value(s@, i as int) == Some((v@, n as int)) && i <= n
                <= s@.len(),
            None => spec_parse_value(s@, i as int) is None,
        },
    decreases s@.len() - i, 1int,
{
    let j = skip_ws(s, i);
    if j >= s.len() {
        return None;
    }
    let b = s[j];
    if b == 110 {
        if s.len() - j >= 4 && s[j + 1] == 117 && s[j + 2] == 108 && s[j + 3] == 108 {
            Some((JsonValue::Null, j + 4))
        } else {
            None
        }
    } else if b == 116 {
        if s.len() - j >= 4 && s[j + 1] == 114 && s[j + 2] == 117 && s[j + 3] == 101 {
            Some((JsonValue::Bool(true), j + 4))
        } else {
            None
        }
    } else if b == 102 {
        if s.len() - j >= 5 && s[j + 1] == 97 && s[j + 2] == 108 && s[j + 3] == 115 && s[j + 4]
            == 101 {
            Some((JsonValue::Bool(false), j + 5))
        } else {
            None
        }
    } else if b == 34 {
        match parse_string_at(s, j + 1, Vec::new()) {
            Some((c, n)) => Some((JsonValue::Str(c), n)),
            None => None,
        }
    } else if 48 <= b && b <= 57 {
        match parse_digits_at(s, j, 0) {
            Some((v, n)) => Some((JsonValue::UInt(v), n)),
            None => None,
        }
    } else if b == 91 {
        match parse_elems_at(s, j + 1) {
            Some((items, n)) => {
                proof {
                    lemma_view_arr(items);
                }
                Some((JsonValue::Arr(items), n))
            },
            None => None,
        }
    } else if b == 123 {
        match parse_members_at(s, j + 1) {
            Some((fields, n)) => {
                proof {
                    lemma_view_obj(fields);
                }
                Some((JsonValue::Obj(fields), n))
            },
            None => None,
        }
    } else {
        None
    }
}

fn parse_elems_at(s: &[u8], i: usize) -> (r: Option<(Vec<JsonValue>, usize)>)
    requires
        i <= s@.len(),
    ensures
        match r {
            Some((items, n)) => spec_parse_elems(s@, i as int) == Some((jv_views(items@), n as int))
                && i <= n <= s@.len(),
            None => spec_parse_elems(s@, i as int) is None,
        },
    decreases s@.len() - i, 2int,
{
    let j = skip_ws(s, i);
    if j >= s.len() {
        return None;
    }
    if s[j] == 93 {
        proof {
            assert(jv_views(Seq::<JsonValue>::empty()) =~= Seq::<SpecJson>::empty());
        }
        return Some((Vec::new(), j + 1));
    }
    match parse_value_at(s, i) {
        Some((v, n)) => {
            if n <= i {
                return None;
            }
            let k = skip_ws(s, n);
            if k >= s.len() {
                return None;
            }
            if s[k] == 44 {
                match parse_elems_at(s, k + 1) {
                    Some((rest, m)) => {
                        let ghost v0 = v@;
                        let ghost rest0 = rest@;
                        let mut items: Vec<JsonValue> = Vec::new();
                        items.push(v);
                        let mut rest = rest;
                        items.append(&mut rest);
                        proof {
                            assert(jv_views(items@) =~= seq![v0] + jv_views(rest0));
                        }
                        Some((items, m))
                    },
                    None => None,
                }
            } else if s[k] == 93 {
                let mut items: Vec<JsonValue> = Vec::new();
                items.push(v);
                proof {
                    assert(jv_views(items@) =~= seq![v@]);
                }
                Some((items, k + 1))
            } else {
                None
            }
        },
        None => None,
    }
}

fn parse_members_at(s: &[u8], i: usize) -> (r: Option<(Vec<(Vec<u8>, JsonValue)>, usize)>)
    requires
        i <= s@.len(),
    ensures
        match r {
            Some((fields, n)) => spec_parse_members(s@, i as int) == Some(
                (jv_field_views(fields@), n as int),
            ) && i <= n <= s@.len(),
            None => spec_parse_members(s@, i as int) is None,
        },
    decreases s@.len() - i, 2int,
{
    let j = skip_ws(s, i);
    if j >= s.len() {
        return None;
    }
    if s[j] == 125 {
        proof {
            assert(jv_field_views(Seq::<(Vec<u8>, JsonValue)>::empty()) =~= Seq::<(
                Seq<u8>,
                SpecJson,
            )>::empty());
        }
        return Some((Vec::new(), j + 1));
    }
    if s[j] != 34 {
        return None;
    }
    match parse_string_at(s, j + 1, Vec::new()) {
        Some((key, n)) => {
            if n <= j + 1 {
                return None;
            }
            let c = skip_ws(s, n);
            if c >= s.len() {
                return None;
            }
            if s[c] != 58 {
                return None;
            }
            match parse_value_at(s, c + 1) {
                Some((v, m)) => {
                    if m <= i {
                        return None;
                    }
                    let k = skip_ws(s, m);
                    if k >= s.len() {
                        return None;
                    }
                    if s[k] == 44 {
                        match parse_members_at(s, k + 1) {
                            Some((rest, e)) => {
                                let ghost key0 = key@;
                                let ghost v0 = v@;
                                let ghost rest0 = rest@;
                                let mut fields: Vec<(Vec<u8>, JsonValue)> = Vec::new();
                                fields.push((key, v));
                                let mut rest = rest;
                                fields.append(&mut rest);
                                proof {
                                    assert(jv_field_views(fields@) =~= seq![(key0, v0)]
                                        + jv_field_views(rest0));
                                }
                                Some((fields, e))
                            },
                            None => None,
                        }
                    } else if s[k] == 125 {
                        let mut fields: Vec<(Vec<u8>, JsonValue)> = Vec::new();
                        fields.push((key, v));
                        proof {
                            assert(jv_field_views(fields@) =~= seq![(key@, v@)]);
                        }
                        Some((fields, k + 1))
                    } else {
                        None
                    }
                },
                None => None,
            }
        },
        None => None,
    }
}

/// A whole JSON document: one value, possibly surrounded by whitespace, and
/// nothing else.
pub open spec fn spec_parse_document(s: Seq<u8>) -> Option<SpecJson> {
    match spec_parse_value(s, 0) {
        Some((v, n)) => if spec_skip_ws(s, n) == s.len() {
            Some(v)
        } else {
            None
        },
        None => None,
    }
}

/// Parses a whole JSON document: one value, possibly surrounded by
/// whitespace; anything trailing makes it malformed.
pub fn parse_json(s: &[u8]) -> (r: Option<JsonValue>)
    ensures
        match r {
            Some(v) => spec_parse_document(s@) == Some(v@),
            None => spec_parse_document(s@) is None,
        },
{
    match parse_value_at(s, 0) {
        Some((v, n)) => {
            let k = skip_ws(s, n);
            if k == s.len() {
                Some(v)
            } else {
                None
            }
        },
        None => None,
    }
}

proof fn lemma_skip_ws_at_non_ws(s: Seq<u8>, i: int)
    requires
        0 <= i < s.len(),
        !is_ws(s[i]),
    ensures
        spec_skip_ws(s, i) == i,
{
}

proof fn lemma_skip_ws_at_end(s: Seq<u8>)
    ensures
        spec_skip_ws(s, s.len() as int) == s.len(),
{
}

/// Unescaping inverts escaping: a buffer holding the escaped form of string
/// content followed by the closing quote parses back to exactly that
/// content.
proof fn lemma_parse_escaped(content: Seq<u8>, k: int, buf: Seq<u8>, i: int, acc: Seq<u8>)
    requires
        0 <= k <= content.len(),
        0 <= i,
        i + spec_escape(content, k).len() + 1 <= buf.len(),
        buf.subrange(i, i + spec_escape(content, k).len() as int) == spec_escape(content, k),
        buf[i + spec_escape(content, k).len() as int] == 34,
    ensures
        spec_parse_string(buf, i, acc) == Some(
            (acc + content.skip(k), i + spec_escape(content, k).len() + 1),
        ),
    decreases content.len() - k,
{
    let esc = spec_escape(content, k);
    if k == content.len() {
        assert(esc.len() == 0);
        assert(buf[i] == 34);
        assert(acc + content.skip(k) =~= acc);
    } else {
        let b = content[k];
        let head = spec_escape_byte(b);
        let tail = spec_escape(content, k + 1);
        assert(esc == head + tail);
        assert forall|j: int| 0 <= j < esc.len() implies buf[i + j] == esc[j] by {
            assert(buf.subrange(i, i + esc.len() as int)[j] == esc[j]);
        }
        assert forall|j: int| 0 <= j < head.len() implies buf[i + j] == head[j] by {
            assert(buf[i + j] == esc[j]);
            assert(esc[j] == head[j]);
        }
        let i2 = i + head.len() as int;
        assert forall|j: int| 0 <= j < tail.len() implies buf[i2 + j] == tail[j] by {
            assert(buf[i + (head.len() + j)] == esc[head.len() + j]);
        }
        assert(buf.subrange(i2, i2 + tail.len() as int) =~= tail);
        assert(acc.push(b) + content.skip(k + 1) =~= acc + content.skip(k));
        if b == 34 || b == 92 {
            assert(buf[i + 0] == head[0] && buf[i + 1] == head[1]);
            assert(buf[i] == 92 && buf[i + 1] == b);
            lemma_parse_escaped(content, k + 1, buf, i + 2, acc.push(b));
        } else if b == 10 {
            assert(buf[i + 0] == head[0] && buf[i + 1] == head[1]);
            assert(buf[i] == 92 && buf[i + 1] == 110);
            lemma_parse_escaped(content, k + 1, buf, i + 2, acc.push(b));
        } else if b == 13 {
            assert(buf[i + 0] == head[0] && buf[i + 1] == head[1]);
            assert(buf[i] == 92 && buf[i + 1] == 114);
            lemma_parse_escaped(content, k + 1, buf, i + 2, acc.push(b));
        } else if b == 9 {
            assert(buf[i + 0] == head[0] && buf[i + 1] == head[1]);
            assert(buf[i] == 92 && buf[i + 1] == 116);
            lemma_parse_escaped(content, k + 1, buf, i + 2, acc.push(b));
        } else if b < 32 {
            assert(buf[i + 0] == head[0] && buf[i + 1] == head[1] && buf[i + 2] == head[2] && buf[i
                + 3] == head[3] && buf[i + 4] == head[4] && buf[i + 5] == head[5]);
            assert(buf[i] == 92 && buf[i + 1] == 117 && buf[i + 2] == 48 && buf[i + 3] == 48);
            assert(buf[i + 4] == hex_digit(b as int / 16) && buf[i + 5] == hex_digit(b as int % 16));
            assert(is_hex(hex_digit(b as int / 16)) && hex_val(hex_digit(b as int / 16)) == b as int
                / 16);
            assert(is_hex(hex_digit(b as int % 16)) && hex_val(hex_digit(b as int % 16)) == b as int
                % 16);
            assert((b as int / 16) * 16 + (b as int % 16) == b as int) by {
                vstd::arithmetic::div_mod::lemma_fundamental_div_mod(b as int, 16);
            }
            lemma_parse_escaped(content, k + 1, buf, i + 6, acc.push(b));
        } else {
            assert(buf[i + 0] == head[0]);
            assert(buf[i] == b && b != 34 && b != 92 && !(b < 32));
            lemma_parse_escaped(content, k + 1, buf, i + 1, acc.push(b));
        }
    }
}

/// Powers of ten.
pub open spec fn pow10(k: nat) -> int
    decreases k,
{
    if k == 0 {
        1
    } else {
        10 * pow10((k - 1) as nat)
    }
}

proof fn lemma_decimal_bytes_are_digits(n: int)
    ensures
        crate::text::spec_decimal_bytes(n).len() >= 1,
        forall|j: int|
            0 <= j < crate::text::spec_decimal_bytes(n).len() ==> is_digit(
                #[trigger] crate::text::spec_decimal_bytes(n)[j],
            ),
        is_digit(crate::text::spec_decimal_bytes(n)[0]),
    decreases (if n < 0 {
        0int
    } else {
        n
    }),
{
    if n >= 10 {
        lemma_decimal_bytes_are_digits(n / 10);
        let bs = crate::text::spec_decimal_bytes(n);
        let pre = crate::text::spec_decimal_bytes(n / 10);
        assert forall|j: int| 0 <= j < bs.len() implies is_digit(#[trigger] bs[j]) by {
            if j < pre.len() {
                assert(bs[j] == pre[j]);
            } else {
                assert(bs[j] == crate::text::digit_byte(n % 10));
            }
        }
        assert(bs[0] == pre[0]);
    }
}

/// Reading a decimal rendering left to right accumulates exactly its value
/// on top of whatever was already accumulated.
proof fn lemma_parse_decimal_run(n: u64, buf: Seq<u8>, i: int, acc: u64)
    requires
        0 <= i,
        i + crate::text::spec_decimal_bytes(n as int).len() <= buf.len(),
        buf.subrange(i, i + crate::text::spec_decimal_bytes(n as int).len() as int)
            == crate::text::spec_decimal_bytes(n as int),
        acc * pow10(crate::text::spec_decimal_bytes(n as int).len() as nat) + n <= u64::MAX,
    ensures
        spec_parse_digits(buf, i, acc) == spec_parse_digits(
            buf,
            i + crate::text::spec_decimal_bytes(n as int).len() as int,
            (acc * pow10(crate::text::spec_decimal_bytes(n as int).len() as nat) + n) as u64,
        ),
    decreases n,
{
    let bs = crate::text::spec_decimal_bytes(n as int);
    let len = bs.len() as int;
    lemma_decimal_bytes_are_digits(n as int);
    assert forall|j: int| 0 <= j < len implies buf[i + j] == bs[j] by {
        assert(buf.subrange(i, i + len)[j] == bs[j]);
    }
    if n < 10 {
        assert(bs == seq![crate::text::digit_byte(n as int)]);
        assert(buf[i + 0] == bs[0]);
        assert(buf[i] == crate::text::digit_byte(n as int));
        assert(is_digit(buf[i]));
        assert((buf[i] - 48) as u64 == n);
        assert(pow10(0) == 1);
        assert(pow10(1) == 10);
        assert(acc * 10 + n <= u64::MAX);
        assert(acc <= (u64::MAX - n) / 10) by {
            vstd::arithmetic::div_mod::lemma_fundamental_div_mod((u64::MAX - n) as int, 10);
        }
        assert(spec_parse_digits(buf, i, acc) == spec_parse_digits(
            buf,
            i + 1,
            (10 * acc + n) as u64,
        ));
    } else {
        let hi = n / 10;
        let d = n % 10;
        let pre = crate::text::spec_decimal_bytes(hi as int);
        assert(bs == pre.push(crate::text::digit_byte(d as int)));
        assert(pre.len() + 1 == len);
        assert(buf.subrange(i, i + pre.len() as int) =~= pre) by {
            assert forall|j: int| 0 <= j < pre.len() implies buf.subrange(
                i,
                i + pre.len() as int,
            )[j] == pre[j] by {
                assert(bs[j] == pre[j]);
                assert(buf[i + j] == bs[j]);
            }
        }
        let p1 = pow10((len - 1) as nat);
        let p = pow10(len as nat);
        assert(p == 10 * p1);
        assert(p1 >= 1) by {
            lemma_pow10_pos((len - 1) as nat);
        }
        // The intermediate accumulated value also fits.
        assert(10 * (acc * p1 + hi) + d == acc * p + n) by (nonlinear_arith)
            requires
                p == 10 * p1 && hi == n / 10 && d == n % 10 && n == 10 * (n as int / 10) + n as int
                    % 10,
        ;
        assert(n == 10 * (n as int / 10) + n as int % 10) by {
            vstd::arithmetic::div_mod::lemma_fundamental_div_mod(n as int, 10);
        }
        assert(acc * p1 + hi >= 0) by (nonlinear_arith)
            requires
                acc >= 0 && p1 >= 1 && hi >= 0,
        ;
        assert(acc * p1 + hi <= u64::MAX);
        lemma_parse_decimal_run(hi, buf, i, acc);
        let mid = (acc * p1 + hi) as u64;
        // One more digit: the last byte of the rendering.
        assert(buf[i + (len - 1)] == bs[len - 1]);
        assert(bs[len - 1] == crate::text::digit_byte(d as int));
        assert(is_digit(buf[i + len - 1]));
        assert((buf[i + len - 1] - 48) as u64 == d);
        assert(mid <= (u64::MAX - d) / 10) by {
            vstd::arithmetic::div_mod::lemma_fundamental_div_mod((u64::MAX - d) as int, 10);
        }
        assert(spec_parse_digits(buf, i + len - 1, mid) == spec_parse_digits(
            buf,
            i + len,
            (10 * mid + d) as u64,
        ));
        assert(10 * mid + d == acc * p + n);
    }
}

proof fn lemma_pow10_pos(k: nat)
    ensures
        pow10(k) >= 1,
    decreases k,
{
    if k > 0 {
        lemma_pow10_pos((k - 1) as nat);
    }
}

/// A decimal rendering followed by a non-digit parses back to its value.
proof fn lemma_parse_decimal(n: u64, buf: Seq<u8>, i: int)
    requires
        0 <= i,
        i + crate::text::spec_decimal_bytes(n as int).len() <= buf.len(),
        buf.subrange(i, i + crate::text::spec_decimal_bytes(n as int).len() as int)
            == crate::text::spec_decimal_bytes(n as int),
        i + crate::text::spec_decimal_bytes(n as int).len() == buf.len() || !is_digit(
            buf[i + crate::text::spec_decimal_bytes(n as int).len() as int],
        ),
    ensures
        spec_parse_digits(buf, i, 0) == Some(
            (n, i + crate::text::spec_decimal_bytes(n as int).len() as int),
        ),
{
    let len = crate::text::spec_decimal_bytes(n as int).len() as int;
    assert(0 * pow10(len as nat) == 0) by (nonlinear_arith);
    lemma_parse_decimal_run(n, buf, i, 0);
    assert((0 * pow10(len as nat) + n) as u64 == n);
    assert(spec_parse_digits(buf, i + len, n) == Some((n, i + len)));
}

pub proof fn lemma_print_first_byte(v: SpecJson)
    ensures
        spec_print(v).len() >= 1,
        !is_ws(spec_print(v)[0]),
        spec_print(v)[0] != 93,
        spec_print(v)[0] != 125,
        spec_print(v)[0] != 44,
        spec_print(v)[0] != 58,
        spec_print(v)[0] != 0xEF,
{
    match v {
        SpecJson::UInt(n) => {
            lemma_decimal_bytes_are_digits(n as int);
        },
        _ => {},
    }
}

/// Parsing inverts printing for any JSON value: at the position where a
/// value's canonical printing starts, the parser returns exactly that value
/// and stops exactly past it. (For a number the byte after the printing must
/// not be a digit, as it never is inside a document.)
proof fn lemma_value_round_trip(v: SpecJson, buf: Seq<u8>, i: int)
    requires
        0 <= i,
        i + spec_print(v).len() <= buf.len(),
        buf.subrange(i, i + spec_print(v).len() as int) == spec_print(v),
        v is UInt ==> i + spec_print(v).len() == buf.len() || !is_digit(
            buf[i + spec_print(v).len() as int],
        ),
    ensures
        spec_parse_value(buf, i) == Some((v, i + spec_print(v).len() as int)),
    decreases v, 0int,
{
    let pr = spec_print(v);
    let len = pr.len() as int;
    lemma_print_first_byte(v);
    assert forall|j: int| 0 <= j < len implies buf[i + j] == pr[j] by {
        assert(buf.subrange(i, i + len)[j] == pr[j]);
    }
    assert(buf[i + 0] == pr[0]);
    assert(buf[i] == pr[0]);
    lemma_skip_ws_at_non_ws(buf, i);
    match v {
        SpecJson::Null => {
            assert(buf[i + 1] == 117 && buf[i + 2] == 108 && buf[i + 3] == 108);
        },
        SpecJson::Bool(b) => {
            if b {
                assert(buf[i + 1] == 114 && buf[i + 2] == 117 && buf[i + 3] == 101);
            } else {
                assert(buf[i + 1] == 97 && buf[i + 2] == 108 && buf[i + 3] == 115 && buf[i + 4]
                    == 101);
            }
        },
        SpecJson::UInt(n) => {
            lemma_decimal_bytes_are_digits(n as int);
            assert(is_digit(buf[i]));
            assert(buf[i] != 110 && buf[i] != 116 && buf[i] != 102 && buf[i] != 34);
            assert(buf.subrange(i, i + len) =~= crate::text::spec_decimal_bytes(n as int));
            lemma_parse_decimal(n, buf, i);
        },
        SpecJson::Str(content) => {
            let esc = spec_escape(content, 0);
            assert(pr == seq![34u8] + esc + seq![34u8]);
            assert(buf.subrange(i + 1, i + 1 + esc.len() as int) =~= esc) by {
                assert forall|j: int| 0 <= j < esc.len() implies buf.subrange(
                    i + 1,
                    i + 1 + esc.len() as int,
                )[j] == esc[j] by {
                    assert(buf[i + (1 + j)] == pr[1 + j]);
                    assert(pr[1 + j] == esc[j]);
                }
            }
            assert(buf[i + (1 + esc.len())] == pr[1 + esc.len() as int]);
            assert(pr[1 + esc.len() as int] == 34);
            lemma_parse_escaped(content, 0, buf, i + 1, Seq::empty());
            assert(Seq::<u8>::empty() + content.skip(0) =~= content);
        },
        SpecJson::Arr(items) => {
            let body = spec_print_items(items, 0);
            assert(pr == seq![91u8] + body + seq![93u8]);
            assert(buf.subrange(i + 1, i + 1 + body.len() as int) =~= body) by {
                assert forall|j: int| 0 <= j < body.len() implies buf.subrange(
                    i + 1,
                    i + 1 + body.len() as int,
                )[j] == body[j] by {
                    assert(buf[i + (1 + j)] == pr[1 + j]);
                    assert(pr[1 + j] == body[j]);
                }
            }
            assert(buf[i + (1 + body.len())] == pr[1 + body.len() as int]);
            assert(pr[1 + body.len() as int] == 93);
            lemma_items_round_trip(items, 0, buf, i + 1);
            assert(items.skip(0) =~= items);
        },
        SpecJson::Obj(fields) => {
            let body = spec_print_fields(fields, 0);
            assert(pr == seq![123u8] + body + seq![125u8]);
            assert(buf.subrange(i + 1, i + 1 + body.len() as int) =~= body) by {
                assert forall|j: int| 0 <= j < body.len() implies buf.subrange(
                    i + 1,
                    i + 1 + body.len() as int,
                )[j] == body[j] by {
                    assert(buf[i + (1 + j)] == pr[1 + j]);
                    assert(pr[1 + j] == body[j]);
                }
            }
            assert(buf[i + (1 + body.len())] == pr[1 + body.len() as int]);
            assert(pr[1 + body.len() as int] == 125);
            lemma_fields_round_trip(fields, 0, buf, i + 1);
            assert(fields.skip(0) =~= fields);
        },
    }
}

/// Parsing inverts printing for array bodies: at the position where the
/// printed elements from `from` on start, with the closing bracket right
/// after them, element parsing returns exactly those elements.
proof fn lemma_items_round_trip(items: Seq<SpecJson>, from: int, buf: Seq<u8>, i: int)
    requires
        0 <= from <= items.len(),
        0 <= i,
        i + spec_print_items(items, from).len() + 1 <= buf.len(),
        buf.subrange(i, i + spec_print_items(items, from).len() as int) == spec_print_items(
            items,
            from,
        ),
        buf[i + spec_print_items(items, from).len() as int] == 93,
    ensures
        spec_parse_elems(buf, i) == Some(
            (items.skip(from), i + spec_print_items(items, from).len() + 1),
        ),
    decreases items, items.len() - from,
{
    let body = spec_print_items(items, from);
    let blen = body.len() as int;
    assert forall|j: int| 0 <= j < blen implies buf[i + j] == body[j] by {
        assert(buf.subrange(i, i + blen)[j] == body[j]);
    }
    if from == items.len() {
        assert(blen == 0);
        assert(buf[i] == 93);
        lemma_skip_ws_at_non_ws(buf, i);
        assert(items.skip(from) =~= Seq::<SpecJson>::empty());
    } else {
        let head = spec_print(items[from]);
        let hlen = head.len() as int;
        lemma_print_first_byte(items[from]);
        assert(buf[i + 0] == body[0]);
        if from == items.len() - 1 {
            assert(body == head);
            assert(buf.subrange(i, i + hlen) =~= head);
            assert(buf[i + hlen] == 93);
            lemma_value_round_trip(items[from], buf, i);
            assert(buf[i] == head[0]);
            assert(!is_ws(buf[i]) && buf[i] != 93);
            lemma_skip_ws_at_non_ws(buf, i);
            lemma_skip_ws_at_non_ws(buf, i + hlen);
            assert(seq![items[from]] =~= items.skip(from));
        } else {
            let rest = spec_print_items(items, from + 1);
            assert(body == head + seq![44u8] + rest);
            assert(buf.subrange(i, i + hlen) =~= head) by {
                assert forall|j: int| 0 <= j < hlen implies buf.subrange(i, i + hlen)[j]
                    == head[j] by {
                    assert(buf[i + j] == body[j]);
                    assert(body[j] == head[j]);
                }
            }
            assert(buf[i + hlen] == body[hlen]);
            assert(body[hlen] == 44);
            lemma_value_round_trip(items[from], buf, i);
            assert(buf[i] == head[0]);
            assert(!is_ws(buf[i]) && buf[i] != 93);
            lemma_skip_ws_at_non_ws(buf, i);
            lemma_skip_ws_at_non_ws(buf, i + hlen);
            let i2 = i + hlen + 1;
            assert(buf.subrange(i2, i2 + rest.len() as int) =~= rest) by {
                assert forall|j: int| 0 <= j < rest.len() implies buf.subrange(
                    i2,
                    i2 + rest.len() as int,
                )[j] == rest[j] by {
                    assert(buf[i + (hlen + 1 + j)] == body[hlen + 1 + j]);
                    assert(body[hlen + 1 + j] == rest[j]);
                }
            }
            assert(buf[i2 + rest.len() as int] == buf[i + blen]);
            lemma_items_round_trip(items, from + 1, buf, i2);
            assert(seq![items[from]] + items.skip(from + 1) =~= items.skip(from));
        }
    }
}

/// Parsing inverts printing for object bodies: at the position where the
/// printed fields from `from` on start, with the closing brace right after
/// them, member parsing returns exactly those fields.
proof fn lemma_fields_round_trip(fields: Seq<(Seq<u8>, SpecJson)>, from: int, buf: Seq<u8>, i: int)
    requires
        0 <= from <= fields.len(),
        0 <= i,
        i + spec_print_fields(fields, from).len() + 1 <= buf.len(),
        buf.subrange(i, i + spec_print_fields(fields, from).len() as int) == spec_print_fields(
            fields,
            from,
        ),
        buf[i + spec_print_fields(fields, from).len() as int] == 125,
    ensures
        spec_parse_members(buf, i) == Some(
            (fields.skip(from), i + spec_print_fields(fields, from).len() + 1),
        ),
    decreases fields, fields.len() - from,
{
    let body = spec_print_fields(fields, from);
    let blen = body.len() as int;
    assert forall|j: int| 0 <= j < blen implies buf[i + j] == body[j] by {
        assert(buf.subrange(i, i + blen)[j] == body[j]);
    }
    if from == fields.len() {
        assert(blen == 0);
        assert(buf[i] == 125);
        lemma_skip_ws_at_non_ws(buf, i);
        assert(fields.skip(from) =~= Seq::<(Seq<u8>, SpecJson)>::empty());
    } else {
        let key = fields[from].0;
        let value = fields[from].1;
        let esc = spec_escape(key, 0);
        let vpr = spec_print(value);
        let entry = seq![34u8] + esc + seq![34u8, 58u8] + vpr;
        let elen = entry.len() as int;
        lemma_print_first_byte(value);
        assert forall|j: int| 0 <= j < elen implies buf[i + j] == entry[j] by {
            if from == fields.len() - 1 {
                assert(body == entry);
                assert(buf[i + j] == body[j]);
            } else {
                assert(body == entry + seq![44u8] + spec_print_fields(fields, from + 1));
                assert(buf[i + j] == body[j]);
                assert(body[j] == entry[j]);
            }
        }
        assert(buf[i + 0] == entry[0]);
        assert(buf[i] == 34);
        lemma_skip_ws_at_non_ws(buf, i);
        // The key parses back.
        assert(buf.subrange(i + 1, i + 1 + esc.len() as int) =~= esc) by {
            assert forall|j: int| 0 <= j < esc.len() implies buf.subrange(
                i + 1,
                i + 1 + esc.len() as int,
            )[j] == esc[j] by {
                assert(buf[i + (1 + j)] == entry[1 + j]);
                assert(entry[1 + j] == esc[j]);
            }
        }
        assert(buf[i + (1 + esc.len())] == entry[1 + esc.len() as int]);
        assert(entry[1 + esc.len() as int] == 34);
        lemma_parse_escaped(key, 0, buf, i + 1, Seq::empty());
        assert(Seq::<u8>::empty() + key.skip(0) =~= key);
        let n = i + 1 + esc.len() as int + 1;
        // The colon follows the key.
        assert(buf[i + (2 + esc.len())] == entry[2 + esc.len() as int]);
        assert(entry[2 + esc.len() as int] == 58);
        assert(buf[n] == 58);
        lemma_skip_ws_at_non_ws(buf, n);
        // The value parses back.
        let c1 = n + 1;
        assert(buf.subrange(c1, c1 + vpr.len() as int) =~= vpr) by {
            assert forall|j: int| 0 <= j < vpr.len() implies buf.subrange(
                c1,
                c1 + vpr.len() as int,
            )[j] == vpr[j] by {
                assert(buf[i + (3 + esc.len() + j)] == entry[3 + esc.len() + j]);
                assert(entry[3 + esc.len() + j] == vpr[j]);
            }
        }
        let m = c1 + vpr.len() as int;
        if from == fields.len() - 1 {
            assert(body == entry);
            assert(buf[m] == buf[i + blen]);
            assert(buf[m] == 125);
            lemma_value_round_trip(value, buf, c1);
            lemma_skip_ws_at_non_ws(buf, m);
            assert(seq![(key, value)] =~= fields.skip(from));
        } else {
            let rest = spec_print_fields(fields, from + 1);
            assert(body == entry + seq![44u8] + rest);
            assert(buf[i + elen] == body[elen]);
            assert(body[elen] == 44);
            assert(buf[m] == 44);
            lemma_value_round_trip(value, buf, c1);
            lemma_skip_ws_at_non_ws(buf, m);
            let i2 = m + 1;
            assert(buf.subrange(i2, i2 + rest.len() as int) =~= rest) by {
                assert forall|j: int| 0 <= j < rest.len() implies buf.subrange(
                    i2,
                    i2 + rest.len() as int,
                )[j] == rest[j] by {
                    assert(buf[i + (elen + 1 + j)] == body[elen + 1 + j]);
                    assert(body[elen + 1 + j] == rest[j]);
                }
            }
            assert(buf[i2 + rest.len() as int] == buf[i + blen]);
            lemma_fields_round_trip(fields, from + 1, buf, i2);
            assert(seq![(key, value)] + fields.skip(from + 1) =~= fields.skip(from));
        }
    }
}

/// Parsing inverts printing, document for document: the canonical printing
/// of any JSON value parses back to exactly that value. Together with the
/// framing laws, a framed reply stream decodes to exactly the replies that
/// were sent.
pub proof fn lemma_document_round_trip(v: SpecJson)
    ensures
        spec_parse_document(spec_print(v)) == Some(v),
{
    let buf = spec_print(v);
    lemma_print_first_byte(v);
    assert(buf.subrange(0, buf.len() as int) =~= buf);
    lemma_value_round_trip(v, buf, 0);
    lemma_skip_ws_at_end(buf);
}

} // verus!
