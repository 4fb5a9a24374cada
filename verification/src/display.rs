use vstd::prelude::*;
use vstd::string::StringExecFns;
use crate::cbor::{cbor_wf, CborValue};
use crate::text::{append_decimal_u128, dec_digits, decimal_of, i128_to_decimal, push_char};

verus! {

/// The display rendering of a CBOR value. Null shows nothing, booleans
/// and integers their usual text, byte strings and arrays their
/// comma-joined elements, maps their quoted entries between braces, a
/// tag its inner value, and a float its display text. The rendering is
/// informational and is never parsed back.
pub open spec fn cbor_text(v: CborValue) -> Seq<char>
    decreases v,
{
    match v {
        CborValue::Null => Seq::empty(),
        CborValue::Bool(b) => if b {
            "true"@
        } else {
            "false"@
        },
        CborValue::Integer(i) => decimal_of(i.value()),
        CborValue::Float { text, .. } => text@,
        CborValue::Bytes(items) => bytes_join(items@),
        CborValue::Text(s) => s@,
        CborValue::Array(elems) => vals_join(elems@),
        CborValue::ItemMap(entries) => seq!['{'] + entries_join(entries@) + seq!['}'],
        CborValue::Tag(_, inner) => cbor_text(*inner),
    }
}

/// Byte values joined with commas.
pub open spec fn bytes_join(s: Seq<u8>) -> Seq<char>
    decreases s.len(),
{
    if s.len() == 0 {
        Seq::empty()
    } else {
        dec_digits(s[0] as nat) + bytes_tail(s.drop_first())
    }
}

/// The tail of a byte join: a comma before each further byte.
pub open spec fn bytes_tail(s: Seq<u8>) -> Seq<char>
    decreases s.len(),
{
    if s.len() == 0 {
        Seq::empty()
    } else {
        seq![','] + dec_digits(s[0] as nat) + bytes_tail(s.drop_first())
    }
}

/// Value renderings joined with commas.
pub open spec fn vals_join(s: Seq<CborValue>) -> Seq<char>
    decreases s,
{
    if s.len() == 0 {
        Seq::empty()
    } else {
        cbor_text(s[0]) + vals_tail(s.drop_first())
    }
}

/// The tail of a value join: a comma before each further value.
pub open spec fn vals_tail(s: Seq<CborValue>) -> Seq<char>
    decreases s,
{
    if s.len() == 0 {
        Seq::empty()
    } else {
        seq![','] + cbor_text(s[0]) + vals_tail(s.drop_first())
    }
}

/// The rendering of one map entry: the quoted key and the quoted value
/// with a colon between.
pub open spec fn entry_join_text(e: (CborValue, CborValue)) -> Seq<char>
    decreases e,
{
    seq!['"'] + cbor_text(e.0) + seq!['"', ':', '"'] + cbor_text(e.1) + seq!['"']
}

/// Map entry renderings joined with commas.
pub open spec fn entries_join(s: Seq<(CborValue, CborValue)>) -> Seq<char>
    decreases s,
{
    if s.len() == 0 {
        Seq::empty()
    } else {
        entry_join_text(s[0]) + entries_tail(s.drop_first())
    }
}

/// The tail of an entry join: a comma before each further entry.
pub open spec fn entries_tail(s: Seq<(CborValue, CborValue)>) -> Seq<char>
    decreases s,
{
    if s.len() == 0 {
        Seq::empty()
    } else {
        seq![','] + entry_join_text(s[0]) + entries_tail(s.drop_first())
    }
}

pub proof fn lemma_bytes_tail_push(s: Seq<u8>, x: u8)
    ensures
        bytes_tail(s.push(x)) == bytes_tail(s) + seq![','] + dec_digits(x as nat),
    decreases s.len(),
{
    if s.len() == 0 {
        let p = s.push(x);
        assert(p[0] == x);
        assert(p.drop_first() =~= Seq::<u8>::empty());
        assert(bytes_tail(p.drop_first()) == Seq::<char>::empty());
        assert(bytes_tail(p) =~= seq![','] + dec_digits(x as nat));
        assert(bytes_tail(s) + seq![','] + dec_digits(x as nat) =~= seq![','] + dec_digits(
            x as nat,
        ));
    } else {
        assert(s.push(x).drop_first() =~= s.drop_first().push(x));
        assert(s.push(x)[0] == s[0]);
        lemma_bytes_tail_push(s.drop_first(), x);
        assert(bytes_tail(s.push(x)) == seq![','] + dec_digits(s[0] as nat) + (bytes_tail(
            s.drop_first(),
        ) + seq![','] + dec_digits(x as nat)));
        assert(seq![','] + dec_digits(s[0] as nat) + (bytes_tail(s.drop_first()) + seq![',']
            + dec_digits(x as nat)) =~= (seq![','] + dec_digits(s[0] as nat) + bytes_tail(
            s.drop_first(),
        )) + seq![','] + dec_digits(x as nat));
    }
}

pub proof fn lemma_vals_tail_push(s: Seq<CborValue>, x: CborValue)
    ensures
        vals_tail(s.push(x)) == vals_tail(s) + seq![','] + cbor_text(x),
    decreases s.len(),
{
    if s.len() == 0 {
        let p = s.push(x);
        assert(p[0] == x);
        assert(p.drop_first() =~= Seq::<CborValue>::empty());
        assert(vals_tail(p.drop_first()) == Seq::<char>::empty());
        assert(vals_tail(p) =~= seq![','] + cbor_text(x));
        assert(vals_tail(s) + seq![','] + cbor_text(x) =~= seq![','] + cbor_text(x));
    } else {
        assert(s.push(x).drop_first() =~= s.drop_first().push(x));
        assert(s.push(x)[0] == s[0]);
        lemma_vals_tail_push(s.drop_first(), x);
        assert(vals_tail(s.push(x)) == seq![','] + cbor_text(s[0]) + (vals_tail(s.drop_first())
            + seq![','] + cbor_text(x)));
        assert(seq![','] + cbor_text(s[0]) + (vals_tail(s.drop_first()) + seq![','] + cbor_text(
            x,
        )) =~= (seq![','] + cbor_text(s[0]) + vals_tail(s.drop_first())) + seq![','] + cbor_text(
            x,
        ));
    }
}

pub proof fn lemma_entries_tail_push(
    s: Seq<(CborValue, CborValue)>,
    x: (CborValue, CborValue),
)
    ensures
        entries_tail(s.push(x)) == entries_tail(s) + seq![','] + entry_join_text(x),
    decreases s.len(),
{
    if s.len() == 0 {
        let p = s.push(x);
        assert(p[0] == x);
        assert(p.drop_first() =~= Seq::<(CborValue, CborValue)>::empty());
        assert(entries_tail(p.drop_first()) == Seq::<char>::empty());
        assert(entries_tail(p) =~= seq![','] + entry_join_text(x));
        assert(entries_tail(s) + seq![','] + entry_join_text(x) =~= seq![','] + entry_join_text(
            x,
        ));
    } else {
        assert(s.push(x).drop_first() =~= s.drop_first().push(x));
        assert(s.push(x)[0] == s[0]);
        lemma_entries_tail_push(s.drop_first(), x);
        assert(entries_tail(s.push(x)) == seq![','] + entry_join_text(s[0]) + (entries_tail(
            s.drop_first(),
        ) + seq![','] + entry_join_text(x)));
        assert(seq![','] + entry_join_text(s[0]) + (entries_tail(s.drop_first()) + seq![',']
            + entry_join_text(x)) =~= (seq![','] + entry_join_text(s[0]) + entries_tail(
            s.drop_first(),
        )) + seq![','] + entry_join_text(x));
    }
}

/// Append the display rendering of a value.
#[verifier::loop_isolation(false)]
#[verifier::rlimit(100)]
pub fn cbor_render_into(v: &CborValue, out: &mut String)
    requires
        cbor_wf(*v),
    ensures
        final(out)@ == old(out)@ + cbor_text(*v),
    decreases *v,
{
    match v {
        CborValue::Null => {
            assert(out@ =~= old(out)@ + cbor_text(*v));
        }
        CborValue::Bool(b) => {
            if *b {
                out.append("true");
            } else {
                out.append("false");
            }
        }
        CborValue::Integer(i) => {
            let d = i128_to_decimal(i.to_i128());
            out.append(d.as_str());
        }
        CborValue::Float { text, .. } => {
            out.append(text.as_str());
        }
        CborValue::Text(s) => {
            out.append(s.as_str());
        }
        CborValue::Bytes(items) => {
            if items.len() > 0 {
                append_decimal_u128(out, items[0] as u128);
                let ghost base = out@;
                let mut i: usize = 1;
                while i < items.len()
                    invariant
                        1 <= i <= items@.len(),
                        out@ == base + bytes_tail(items@.subrange(1, i as int)),
                    decreases items@.len() - i,
                {
                    proof {
                        reveal_strlit(",");
                    }
                    out.append(",");
                    append_decimal_u128(out, items[i] as u128);
                    proof {
                        lemma_bytes_tail_push(items@.subrange(1, i as int), items@[i as int]);
                        assert(items@.subrange(1, i as int).push(items@[i as int])
                            =~= items@.subrange(1, i + 1));
                        assert(out@ =~= base + bytes_tail(items@.subrange(1, i + 1)));
                    }
                    i = i + 1;
                }
                proof {
                    assert(items@.subrange(1, items@.len() as int) =~= items@.drop_first());
                    assert(out@ =~= old(out)@ + cbor_text(*v));
                }
            } else {
                assert(out@ =~= old(out)@ + cbor_text(*v));
            }
        }
        CborValue::Array(elems) => {
            if elems.len() > 0 {
                proof {
                    assert(decreases_to!(*v => elems@[0]));
                }
                cbor_render_into(&elems[0], out);
                let ghost base = out@;
                let mut i: usize = 1;
                while i < elems.len()
                    invariant
                        1 <= i <= elems@.len(),
                        out@ == base + vals_tail(elems@.subrange(1, i as int)),
                    decreases elems@.len() - i,
                {
                    proof {
                        reveal_strlit(",");
                    }
                    out.append(",");
                    proof {
                        assert(decreases_to!(*v => elems@[i as int]));
                    }
                    cbor_render_into(&elems[i], out);
                    proof {
                        lemma_vals_tail_push(elems@.subrange(1, i as int), elems@[i as int]);
                        assert(elems@.subrange(1, i as int).push(elems@[i as int])
                            =~= elems@.subrange(1, i + 1));
                        assert(out@ =~= base + vals_tail(elems@.subrange(1, i + 1)));
                    }
                    i = i + 1;
                }
                proof {
                    assert(elems@.subrange(1, elems@.len() as int) =~= elems@.drop_first());
                    assert(cbor_text(*v) == vals_join(elems@));
                    assert(vals_join(elems@) == cbor_text(elems@[0]) + vals_tail(
                        elems@.drop_first(),
                    ));
                    assert(base == old(out)@ + cbor_text(elems@[0]));
                    assert(out@ == base + vals_tail(elems@.drop_first()));
                    assert(out@ =~= old(out)@ + cbor_text(*v));
                }
            } else {
                proof {
                    assert(cbor_text(*v) == vals_join(elems@));
                    assert(vals_join(elems@) =~= Seq::<char>::empty());
                    assert(out@ =~= old(out)@ + cbor_text(*v));
                }
            }
        }
        CborValue::ItemMap(entries) => {
            proof {
                reveal_strlit(",");
            }
            push_char(out, '{');
            if entries.len() > 0 {
                proof {
                    assert(decreases_to!(*v => entries@[0]));
                    assert(decreases_to!(entries@[0] => entries@[0].0));
                    assert(decreases_to!(entries@[0] => entries@[0].1));
                    assert(cbor_wf(#[trigger] entries@[0].0) && cbor_wf(entries@[0].1));
                }
                push_char(out, '"');
                cbor_render_into(&entries[0].0, out);
                push_char(out, '"');
                push_char(out, ':');
                push_char(out, '"');
                cbor_render_into(&entries[0].1, out);
                push_char(out, '"');
                assert(out@ =~= old(out)@ + seq!['{'] + entry_join_text(entries@[0]));
                let ghost base = out@;
                let mut i: usize = 1;
                while i < entries.len()
                    invariant
                        1 <= i <= entries@.len(),
                        out@ == base + entries_tail(entries@.subrange(1, i as int)),
                    decreases entries@.len() - i,
                {
                    out.append(",");
                    proof {
                        assert(decreases_to!(*v => entries@[i as int]));
                        assert(decreases_to!(entries@[i as int] => entries@[i as int].0));
                        assert(decreases_to!(entries@[i as int] => entries@[i as int].1));
                        assert(cbor_wf(#[trigger] entries@[i as int].0) && cbor_wf(
                            entries@[i as int].1,
                        ));
                    }
                    let ghost mid = out@;
                    push_char(out, '"');
                    cbor_render_into(&entries[i].0, out);
                    push_char(out, '"');
                    push_char(out, ':');
                    push_char(out, '"');
                    cbor_render_into(&entries[i].1, out);
                    push_char(out, '"');
                    proof {
                        assert(out@ =~= mid + entry_join_text(entries@[i as int]));
                        lemma_entries_tail_push(
                            entries@.subrange(1, i as int),
                            entries@[i as int],
                        );
                        assert(entries@.subrange(1, i as int).push(entries@[i as int])
                            =~= entries@.subrange(1, i + 1));
                        assert(out@ =~= base + entries_tail(entries@.subrange(1, i + 1)));
                    }
                    i = i + 1;
                }
                proof {
                    assert(entries@.subrange(1, entries@.len() as int)
                        =~= entries@.drop_first());
                    assert(entries_join(entries@) == entry_join_text(entries@[0])
                        + entries_tail(entries@.drop_first()));
                    assert(out@ =~= old(out)@ + seq!['{'] + entries_join(entries@));
                }
            } else {
                proof {
                    assert(entries_join(entries@) =~= Seq::<char>::empty());
                    assert(out@ =~= old(out)@ + seq!['{'] + entries_join(entries@));
                }
            }
            push_char(out, '}');
            proof {
                assert(cbor_text(*v) == seq!['{'] + entries_join(entries@) + seq!['}']);
                assert(out@ =~= old(out)@ + cbor_text(*v));
            }
        }
        CborValue::Tag(_, inner) => {
            cbor_render_into(inner, out);
        }
    }
}

/// Render a value's display text.
pub fn cbor_to_text(v: &CborValue) -> (s: String)
    requires
        cbor_wf(*v),
    ensures
        s@ == cbor_text(*v),
{
    let mut out = String::new();
    cbor_render_into(v, &mut out);
    out
}

} // verus!
