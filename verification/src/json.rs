use vstd::prelude::*;
use vstd::string::StringExecFns;
use crate::text::{dec_digit_char, decimal_of, i128_to_decimal};

verus! {

/// A JSON value, as far as the wallet's own logic reads and writes one:
/// numbers are integers (the protocols only carry timestamps, counters
/// and statuses), and object entries keep their order.
#[derive(Debug)]
pub enum JsonValue {
    Null,
    Bool(bool),
    Number(i128),
    Str(String),
    Array(Vec<JsonValue>),
    Object(Vec<(String, JsonValue)>),
}

/// A hexadecimal digit character, lower case.
pub open spec fn hex_char(d: nat) -> char
    recommends
        d < 16,
{
    if d < 10 {
        dec_digit_char(d)
    } else if d == 10 {
        'a'
    } else if d == 11 {
        'b'
    } else if d == 12 {
        'c'
    } else if d == 13 {
        'd'
    } else if d == 14 {
        'e'
    } else {
        'f'
    }
}

/// The JSON escape of one character: quotes and backslashes take a
/// backslash, control characters take the `\u00XX` form, and every other
/// character stands for itself.
pub open spec fn esc_char(c: char) -> Seq<char> {
    if c == '"' {
        seq!['\\', '"']
    } else if c == '\\' {
        seq!['\\', '\\']
    } else if (c as u32) < 32 {
        seq!['\\', 'u', '0', '0', hex_char(((c as u32) / 16) as nat), hex_char(
            ((c as u32) % 16) as nat,
        )]
    } else {
        seq![c]
    }
}

/// The JSON escape of a character string.
pub open spec fn esc(s: Seq<char>) -> Seq<char>
    decreases s.len(),
{
    if s.len() == 0 {
        Seq::empty()
    } else {
        esc_char(s[0]) + esc(s.drop_first())
    }
}

/// A JSON string literal: the escaped characters between quotes.
pub open spec fn str_json(s: Seq<char>) -> Seq<char> {
    seq!['"'] + esc(s) + seq!['"']
}

/// The rendering of a JSON value: compact, with no whitespace, entries
/// and elements in stored order.
pub open spec fn json_text(v: JsonValue) -> Seq<char>
    decreases v,
{
    match v {
        JsonValue::Null => "null"@,
        JsonValue::Bool(b) => if b {
            "true"@
        } else {
            "false"@
        },
        JsonValue::Number(n) => decimal_of(n as int),
        JsonValue::Str(s) => str_json(s@),
        JsonValue::Array(elems) => seq!['['] + arr_body(elems@) + seq![']'],
        JsonValue::Object(entries) => seq!['{'] + obj_body(entries@) + seq!['}'],
    }
}

/// The comma-joined renderings of array elements.
pub open spec fn arr_body(s: Seq<JsonValue>) -> Seq<char>
    decreases s,
{
    if s.len() == 0 {
        Seq::empty()
    } else {
        json_text(s[0]) + arr_tail(s.drop_first())
    }
}

/// The tail of an array body: a comma before each further element.
pub open spec fn arr_tail(s: Seq<JsonValue>) -> Seq<char>
    decreases s,
{
    if s.len() == 0 {
        Seq::empty()
    } else {
        seq![','] + json_text(s[0]) + arr_tail(s.drop_first())
    }
}

/// The rendering of one object entry: quoted escaped key, colon, value.
pub open spec fn entry_text(e: (String, JsonValue)) -> Seq<char>
    decreases e,
{
    str_json(e.0@) + seq![':'] + json_text(e.1)
}

/// The comma-joined renderings of object entries.
pub open spec fn obj_body(s: Seq<(String, JsonValue)>) -> Seq<char>
    decreases s,
{
    if s.len() == 0 {
        Seq::empty()
    } else {
        entry_text(s[0]) + obj_tail(s.drop_first())
    }
}

/// The tail of an object body: a comma before each further entry.
pub open spec fn obj_tail(s: Seq<(String, JsonValue)>) -> Seq<char>
    decreases s,
{
    if s.len() == 0 {
        Seq::empty()
    } else {
        seq![','] + entry_text(s[0]) + obj_tail(s.drop_first())
    }
}

pub proof fn lemma_arr_tail_push(s: Seq<JsonValue>, x: JsonValue)
    ensures
        arr_tail(s.push(x)) == arr_tail(s) + seq![','] + json_text(x),
    decreases s.len(),
{
    if s.len() == 0 {
        let p = s.push(x);
        assert(p[0] == x);
        assert(p.drop_first() =~= Seq::<JsonValue>::empty());
        assert(arr_tail(p.drop_first()) == Seq::<char>::empty());
        assert(arr_tail(p) =~= seq![','] + json_text(x));
        assert(arr_tail(s) + seq![','] + json_text(x) =~= seq![','] + json_text(x));
    } else {
        assert(s.push(x).drop_first() =~= s.drop_first().push(x));
        assert(s.push(x)[0] == s[0]);
        lemma_arr_tail_push(s.drop_first(), x);
        assert(arr_tail(s.push(x)) == seq![','] + json_text(s[0]) + (arr_tail(s.drop_first())
            + seq![','] + json_text(x)));
        assert(seq![','] + json_text(s[0]) + (arr_tail(s.drop_first()) + seq![','] + json_text(
            x,
        )) =~= (seq![','] + json_text(s[0]) + arr_tail(s.drop_first())) + seq![','] + json_text(
            x,
        ));
    }
}

pub proof fn lemma_obj_tail_push(s: Seq<(String, JsonValue)>, x: (String, JsonValue))
    ensures
        obj_tail(s.push(x)) == obj_tail(s) + seq![','] + entry_text(x),
    decreases s.len(),
{
    if s.len() == 0 {
        let p = s.push(x);
        assert(p[0] == x);
        assert(p.drop_first() =~= Seq::<(String, JsonValue)>::empty());
        assert(obj_tail(p.drop_first()) == Seq::<char>::empty());
        assert(obj_tail(p) =~= seq![','] + entry_text(x));
        assert(obj_tail(s) + seq![','] + entry_text(x) =~= seq![','] + entry_text(x));
    } else {
        assert(s.push(x).drop_first() =~= s.drop_first().push(x));
        assert(s.push(x)[0] == s[0]);
        lemma_obj_tail_push(s.drop_first(), x);
        assert(obj_tail(s.push(x)) == seq![','] + entry_text(s[0]) + (obj_tail(s.drop_first())
            + seq![','] + entry_text(x)));
        assert(seq![','] + entry_text(s[0]) + (obj_tail(s.drop_first()) + seq![','] + entry_text(
            x,
        )) =~= (seq![','] + entry_text(s[0]) + obj_tail(s.drop_first())) + seq![','] + entry_text(
            x,
        ));
    }
}

fn push_hex_digit(out: &mut String, d: u32)
    requires
        d < 16,
    ensures
        final(out)@ == old(out)@ + seq![hex_char(d as nat)],
{
    proof {
        reveal_strlit("0");
        reveal_strlit("1");
        reveal_strlit("2");
        reveal_strlit("3");
        reveal_strlit("4");
        reveal_strlit("5");
        reveal_strlit("6");
        reveal_strlit("7");
        reveal_strlit("8");
        reveal_strlit("9");
        reveal_strlit("a");
        reveal_strlit("b");
        reveal_strlit("c");
        reveal_strlit("d");
        reveal_strlit("e");
        reveal_strlit("f");
    }
    if d == 0 {
        out.append("0");
    } else if d == 1 {
        out.append("1");
    } else if d == 2 {
        out.append("2");
    } else if d == 3 {
        out.append("3");
    } else if d == 4 {
        out.append("4");
    } else if d == 5 {
        out.append("5");
    } else if d == 6 {
        out.append("6");
    } else if d == 7 {
        out.append("7");
    } else if d == 8 {
        out.append("8");
    } else if d == 9 {
        out.append("9");
    } else if d == 10 {
        out.append("a");
    } else if d == 11 {
        out.append("b");
    } else if d == 12 {
        out.append("c");
    } else if d == 13 {
        out.append("d");
    } else if d == 14 {
        out.append("e");
    } else {
        out.append("f");
    }
}

/// Append the JSON escape of a single character.
fn push_esc_char(out: &mut String, c: char)
    ensures
        final(out)@ == old(out)@ + esc_char(c),
{
    let code = c as u32;
    if c == '"' {
        proof {
            reveal_strlit("\\\"");
        }
        out.append("\\\"");
        assert(out@ =~= old(out)@ + esc_char(c));
    } else if c == '\\' {
        proof {
            reveal_strlit("\\\\");
        }
        out.append("\\\\");
        assert(out@ =~= old(out)@ + esc_char(c));
    } else if code < 32 {
        proof {
            reveal_strlit("\\u00");
        }
        out.append("\\u00");
        push_hex_digit(out, code / 16);
        push_hex_digit(out, code % 16);
        assert(out@ =~= old(out)@ + esc_char(c));
    } else {
        crate::text::push_char(out, c);
        assert(out@ =~= old(out)@ + esc_char(c));
    }
}

/// Append a JSON string literal: the escaped characters of `s` between
/// quotes.
pub fn push_str_json(out: &mut String, s: &str)
    ensures
        final(out)@ == old(out)@ + str_json(s@),
{
    proof {
        reveal_strlit("\"");
    }
    out.append("\"");
    let n = s.unicode_len();
    let mut i: usize = 0;
    while i < n
        invariant
            n == s@.len(),
            i <= n,
            out@ == old(out)@ + seq!['"'] + esc(s@.subrange(0, i as int)),
        decreases n - i,
    {
        let c = s.get_char(i);
        push_esc_char(out, c);
        proof {
            lemma_esc_push(s@.subrange(0, i as int), c);
            assert(s@.subrange(0, i as int).push(c) =~= s@.subrange(0, i + 1));
            assert(out@ =~= old(out)@ + seq!['"'] + esc(s@.subrange(0, i + 1)));
        }
        i = i + 1;
    }
    out.append("\"");
    proof {
        assert(s@.subrange(0, n as int) =~= s@);
        assert(out@ =~= old(out)@ + str_json(s@));
    }
}

pub proof fn lemma_esc_push(s: Seq<char>, c: char)
    ensures
        esc(s.push(c)) == esc(s) + esc_char(c),
    decreases s.len(),
{
    if s.len() == 0 {
        let p = s.push(c);
        assert(p[0] == c);
        assert(p.drop_first() =~= Seq::<char>::empty());
        assert(esc(p.drop_first()) == Seq::<char>::empty());
        assert(esc(p) =~= esc_char(c));
        assert(esc(s) + esc_char(c) =~= esc_char(c));
    } else {
        assert(s.push(c).drop_first() =~= s.drop_first().push(c));
        assert(s.push(c)[0] == s[0]);
        lemma_esc_push(s.drop_first(), c);
        assert(esc(s.push(c)) == esc_char(s[0]) + (esc(s.drop_first()) + esc_char(c)));
        assert(esc_char(s[0]) + (esc(s.drop_first()) + esc_char(c)) =~= (esc_char(s[0]) + esc(
            s.drop_first(),
        )) + esc_char(c));
    }
}

/// Render a JSON value, compact and deterministic: no whitespace, object
/// entries in stored order, strings escaped with `\u00XX` for controls.
#[verifier::loop_isolation(false)]
#[verifier::rlimit(100)]
pub fn json_render_into(v: &JsonValue, out: &mut String)
    ensures
        final(out)@ == old(out)@ + json_text(*v),
    decreases *v,
{
    match v {
        JsonValue::Null => {
            out.append("null");
        }
        JsonValue::Bool(b) => {
            if *b {
                out.append("true");
            } else {
                out.append("false");
            }
        }
        JsonValue::Number(n) => {
            let d = i128_to_decimal(*n);
            out.append(d.as_str());
        }
        JsonValue::Str(s) => {
            push_str_json(out, s.as_str());
        }
        JsonValue::Array(elems) => {
            proof {
                reveal_strlit("[");
                reveal_strlit("]");
                reveal_strlit(",");
            }
            out.append("[");
            if elems.len() > 0 {
                proof {
                    assert(decreases_to!(*v => elems@[0]));
                }
                json_render_into(&elems[0], out);
                let ghost base = out@;
                let mut i: usize = 1;
                while i < elems.len()
                    invariant
                        1 <= i <= elems@.len(),
                        out@ == base + arr_tail(elems@.subrange(1, i as int)),
                    decreases elems@.len() - i,
                {
                    out.append(",");
                    proof {
                        assert(decreases_to!(*v => elems@[i as int]));
                    }
                    json_render_into(&elems[i], out);
                    proof {
                        lemma_arr_tail_push(elems@.subrange(1, i as int), elems@[i as int]);
                        assert(elems@.subrange(1, i as int).push(elems@[i as int])
                            =~= elems@.subrange(1, i + 1));
                        assert(out@ =~= base + arr_tail(elems@.subrange(1, i + 1)));
                    }
                    i = i + 1;
                }
                proof {
                    assert(elems@.subrange(1, elems@.len() as int) =~= elems@.drop_first());
                    assert(out@ =~= old(out)@ + seq!['['] + arr_body(elems@));
                }
            } else {
                assert(arr_body(elems@) == Seq::<char>::empty());
            }
            out.append("]");
            assert(out@ =~= old(out)@ + json_text(*v));
        }
        JsonValue::Object(entries) => {
            proof {
                reveal_strlit("{");
                reveal_strlit("}");
                reveal_strlit(",");
                reveal_strlit(":");
            }
            out.append("{");
            if entries.len() > 0 {
                proof {
                    assert(decreases_to!(*v => entries@[0]));
                    assert(decreases_to!(entries@[0] => entries@[0].1));
                }
                push_str_json(out, entries[0].0.as_str());
                out.append(":");
                json_render_into(&entries[0].1, out);
                assert(out@ =~= old(out)@ + seq!['{'] + entry_text(entries@[0]));
                let ghost base = out@;
                let mut i: usize = 1;
                while i < entries.len()
                    invariant
                        1 <= i <= entries@.len(),
                        out@ == base + obj_tail(entries@.subrange(1, i as int)),
                    decreases entries@.len() - i,
                {
                    out.append(",");
                    push_str_json(out, entries[i].0.as_str());
                    out.append(":");
                    proof {
                        assert(decreases_to!(*v => entries@[i as int]));
                        assert(decreases_to!(entries@[i as int] => entries@[i as int].1));
                    }
                    json_render_into(&entries[i].1, out);
                    proof {
                        lemma_obj_tail_push(entries@.subrange(1, i as int), entries@[i as int]);
                        assert(entries@.subrange(1, i as int).push(entries@[i as int])
                            =~= entries@.subrange(1, i + 1));
                        assert(out@ =~= base + obj_tail(entries@.subrange(1, i + 1)));
                    }
                    i = i + 1;
                }
                proof {
                    assert(entries@.subrange(1, entries@.len() as int) =~= entries@.drop_first());
                    assert(out@ =~= old(out)@ + seq!['{'] + obj_body(entries@));
                }
            } else {
                assert(obj_body(entries@) == Seq::<char>::empty());
            }
            out.append("}");
            assert(out@ =~= old(out)@ + json_text(*v));
        }
    }
}

/// Render a JSON value to a fresh string.
pub fn json_render(v: &JsonValue) -> (s: String)
    ensures
        s@ == json_text(*v),
{
    let mut out = String::new();
    json_render_into(v, &mut out);
    out
}


/// The mathematical shape of a JSON value, used by contracts to speak
/// of a value independently of its heap representation.
pub enum JsonModel {
    Null,
    Bool { b: bool },
    Number { n: int },
    Str { s: Seq<char> },
    Array { elems: Seq<JsonModel> },
    Object { entries: Seq<(Seq<char>, JsonModel)> },
}

/// The model of a JSON value.
pub open spec fn json_model(v: JsonValue) -> JsonModel
    decreases v,
{
    match v {
        JsonValue::Null => JsonModel::Null,
        JsonValue::Bool(b) => JsonModel::Bool { b },
        JsonValue::Number(n) => JsonModel::Number { n: n as int },
        JsonValue::Str(s) => JsonModel::Str { s: s@ },
        JsonValue::Array(elems) => JsonModel::Array { elems: json_models(elems@) },
        JsonValue::Object(entries) => JsonModel::Object {
            entries: json_model_entries(entries@),
        },
    }
}

/// The models of a sequence of values.
pub open spec fn json_models(s: Seq<JsonValue>) -> Seq<JsonModel>
    decreases s,
{
    if s.len() == 0 {
        Seq::empty()
    } else {
        seq![json_model(s[0])] + json_models(s.drop_first())
    }
}

/// The models of a sequence of object entries.
pub open spec fn json_model_entries(s: Seq<(String, JsonValue)>) -> Seq<(Seq<char>, JsonModel)>
    decreases s,
{
    if s.len() == 0 {
        Seq::empty()
    } else {
        seq![(s[0].0@, json_model(s[0].1))] + json_model_entries(s.drop_first())
    }
}

/// The parsed JSON tree of the engine, declared so that the conversion
/// behind `json_parse` can name it.
#[verifier::external_type_specification]
#[verifier::external_body]
pub struct ExSerdeValue(serde_json::Value);

/// Whether a character string is a JSON text the parser accepts. Named
/// for what `serde_json::from_str` accepts.
pub uninterp spec fn json_parses(s: Seq<char>) -> bool;

/// The value a JSON text parses to, as its model; a function of the
/// text alone. Named for what `serde_json::from_str` returns, carried
/// over node for node.
pub uninterp spec fn json_value_of(s: Seq<char>) -> JsonModel;

/// Relies on `serde_json::from_str`: parsing succeeds exactly on JSON
/// texts and the result is a function of the text alone. Object entries
/// come back in the engine's order — keys sorted, a later duplicate
/// replacing an earlier one — and a number that is not a 128-bit
/// integer, being fractional or out of range, is carried as its decimal
/// text.
#[verifier::external_body]
pub fn json_parse(s: &str) -> (r: Option<JsonValue>)
    ensures
        r is Some <==> json_parses(s@),
        r matches Some(v) ==> json_model(v) == json_value_of(s@),
{
    serde_json::from_str::<serde_json::Value>(s).ok().map(json_from_serde)
}

/// The conversion behind `json_parse`: one parsed node becomes one node
/// of the library's JSON value.
#[verifier::external_body]
fn json_from_serde(v: serde_json::Value) -> (r: JsonValue)
{
    match v {
        serde_json::Value::Null => JsonValue::Null,
        serde_json::Value::Bool(b) => JsonValue::Bool(b),
        serde_json::Value::Number(n) => match n.as_i128() {
            Some(i) => JsonValue::Number(i),
            None => JsonValue::Str(n.to_string()),
        },
        serde_json::Value::String(t) => JsonValue::Str(t),
        serde_json::Value::Array(a) => JsonValue::Array(
            a.into_iter().map(json_from_serde).collect(),
        ),
        serde_json::Value::Object(m) => JsonValue::Object(
            m.into_iter().map(|p| (p.0, json_from_serde(p.1))).collect(),
        ),
    }
}

} // verus!\n