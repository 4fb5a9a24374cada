use vstd::prelude::*;
use vstd::arithmetic::div_mod::lemma_fundamental_div_mod_converse;
use vstd::utf8::{encode_utf8, valid_utf8};
use crate::cbor::{
    be_nat, cbor_wf, cmp_spec, lemma_pow256_16, lemma_pow256_monotone, pow256, CborInteger,
    CborValue,
};
use crate::text::string_from_utf8;

verus! {

/// Why encoding or decoding a CBOR item failed.
#[derive(Debug, PartialEq, Eq, Structural, Clone, Copy)]
pub enum CborError {
    /// An integer does not fit the CBOR integer range.
    IntegerOutOfRange,
    /// The input ended inside an item.
    Truncated,
    /// A header byte is not a valid item header.
    Malformed,
    /// A length or value argument was not in its shortest form.
    NonMinimal,
    /// An item kind outside the deterministic profile, such as an
    /// indefinite length, an extended simple value, or a short float form.
    UnsupportedValue,
    /// A text string did not hold valid UTF-8.
    InvalidUtf8,
    /// Map keys were not in strictly ascending canonical order.
    UnsortedKeys,
    /// Bytes were left over after the item.
    TrailingBytes,
}

/// The big-endian byte string of width `w` denoting `n` (mod 256^w).
pub open spec fn be_seq(n: nat, w: nat) -> Seq<u8>
    decreases w,
{
    if w == 0 {
        Seq::empty()
    } else {
        be_seq(n / 256, (w - 1) as nat) + seq![(n % 256) as u8]
    }
}

/// The shortest CBOR header carrying major type `major` and argument `arg`.
pub open spec fn head_spec(major: nat, arg: nat) -> Seq<u8> {
    if arg < 24 {
        seq![(major * 32 + arg) as u8]
    } else if arg < 256 {
        seq![(major * 32 + 24) as u8, arg as u8]
    } else if arg < 65536 {
        seq![(major * 32 + 25) as u8] + be_seq(arg, 2)
    } else if arg < 4294967296 {
        seq![(major * 32 + 26) as u8] + be_seq(arg, 4)
    } else {
        seq![(major * 32 + 27) as u8] + be_seq(arg, 8)
    }
}

/// The canonical encoding of a CBOR value under RFC 8949 deterministic
/// rules: shortest headers, definite lengths, and floats as binary64.
pub open spec fn enc_spec(v: CborValue) -> Seq<u8>
    decreases v,
{
    match v {
        CborValue::Null => seq![0xf6u8],
        CborValue::Bool(b) => if b {
            seq![0xf5u8]
        } else {
            seq![0xf4u8]
        },
        CborValue::Integer(i) => if i.value() >= 0 {
            head_spec(0, i.value() as nat)
        } else {
            head_spec(1, (-1 - i.value()) as nat)
        },
        CborValue::Float { bits, .. } => seq![0xfbu8] + be_seq(bits as nat, 8),
        CborValue::Bytes(b) => head_spec(2, b@.len()) + b@,
        CborValue::Text(s) => head_spec(3, encode_utf8(s@).len()) + encode_utf8(s@),
        CborValue::Array(elems) => head_spec(4, elems@.len()) + enc_seq_spec(elems@),
        CborValue::ItemMap(entries) => head_spec(5, entries@.len()) + enc_pairs_spec(entries@),
        CborValue::Tag(id, inner) => head_spec(6, id as nat) + enc_spec(*inner),
    }
}

/// The concatenated encodings of a sequence of values.
pub open spec fn enc_seq_spec(s: Seq<CborValue>) -> Seq<u8>
    decreases s,
{
    if s.len() == 0 {
        Seq::empty()
    } else {
        enc_spec(s[0]) + enc_seq_spec(s.drop_first())
    }
}

/// The concatenated encodings of a sequence of map entries.
pub open spec fn enc_pairs_spec(s: Seq<(CborValue, CborValue)>) -> Seq<u8>
    decreases s,
{
    if s.len() == 0 {
        Seq::empty()
    } else {
        enc_spec(s[0].0) + enc_spec(s[0].1) + enc_pairs_spec(s.drop_first())
    }
}

/// Whether a value lies in the range CBOR can carry: every integer within
/// `[-2^64, 2^64 - 1]`.
pub open spec fn encodable(v: CborValue) -> bool
    decreases v,
{
    match v {
        CborValue::Integer(i) => -0x1_0000_0000_0000_0000 <= i.value()
            <= 0xffff_ffff_ffff_ffff,
        CborValue::Array(elems) => forall|k: int|
            0 <= k < elems@.len() ==> encodable(#[trigger] elems@[k]),
        CborValue::ItemMap(entries) => forall|k: int|
            0 <= k < entries@.len() ==> encodable(#[trigger] entries@[k].0) && encodable(
                entries@[k].1,
            ),
        CborValue::Tag(_, inner) => encodable(*inner),
        _ => true,
    }
}

/// Whether every map in the value keeps its keys in strictly ascending
/// canonical order.
pub open spec fn canonical_order(v: CborValue) -> bool
    decreases v,
{
    match v {
        CborValue::Array(elems) => forall|k: int|
            0 <= k < elems@.len() ==> canonical_order(#[trigger] elems@[k]),
        CborValue::ItemMap(entries) => (forall|j: int|
            0 <= j < entries@.len() - 1 ==> cmp_spec(
                #[trigger] entries@[j].0,
                entries@[j + 1].0,
            ) == -1) && (forall|k: int|
            0 <= k < entries@.len() ==> canonical_order(#[trigger] entries@[k].0)
                && canonical_order(entries@[k].1)),
        CborValue::Tag(_, inner) => canonical_order(*inner),
        _ => true,
    }
}

pub proof fn lemma_be_seq_of_be_nat(s: Seq<u8>)
    ensures
        be_seq(be_nat(s), s.len()) =~= s,
    decreases s.len(),
{
    if s.len() > 0 {
        let n = be_nat(s);
        lemma_fundamental_div_mod_converse(
            n as int,
            256,
            be_nat(s.drop_last()) as int,
            s.last() as int,
        );
        lemma_be_seq_of_be_nat(s.drop_last());
    }
}

pub proof fn lemma_enc_seq_push(s: Seq<CborValue>, x: CborValue)
    ensures
        enc_seq_spec(s.push(x)) == enc_seq_spec(s) + enc_spec(x),
    decreases s.len(),
{
    if s.len() == 0 {
        let p = s.push(x);
        assert(p[0] == x);
        assert(p.drop_first() =~= Seq::<CborValue>::empty());
        assert(enc_seq_spec(p.drop_first()) == Seq::<u8>::empty());
        assert(enc_seq_spec(p) == enc_spec(x) + enc_seq_spec(p.drop_first()));
        assert(enc_spec(x) + Seq::<u8>::empty() =~= enc_spec(x));
        assert(enc_seq_spec(s) == Seq::<u8>::empty());
        assert(Seq::<u8>::empty() + enc_spec(x) =~= enc_spec(x));
    } else {
        assert(s.push(x).drop_first() =~= s.drop_first().push(x));
        assert(s.push(x)[0] == s[0]);
        lemma_enc_seq_push(s.drop_first(), x);
        assert(enc_seq_spec(s.push(x)) == enc_spec(s[0]) + (enc_seq_spec(s.drop_first())
            + enc_spec(x)));
        assert(enc_spec(s[0]) + (enc_seq_spec(s.drop_first()) + enc_spec(x)) =~= (enc_spec(s[0])
            + enc_seq_spec(s.drop_first())) + enc_spec(x));
    }
}

pub proof fn lemma_enc_pairs_push(s: Seq<(CborValue, CborValue)>, x: (CborValue, CborValue))
    ensures
        enc_pairs_spec(s.push(x)) == enc_pairs_spec(s) + enc_spec(x.0) + enc_spec(x.1),
    decreases s.len(),
{
    if s.len() == 0 {
        let p = s.push(x);
        assert(p[0] == x);
        assert(p.drop_first() =~= Seq::<(CborValue, CborValue)>::empty());
        assert(enc_pairs_spec(p.drop_first()) == Seq::<u8>::empty());
        assert(enc_pairs_spec(p) == enc_spec(x.0) + enc_spec(x.1) + enc_pairs_spec(
            p.drop_first(),
        ));
        assert(enc_spec(x.0) + enc_spec(x.1) + Seq::<u8>::empty() =~= enc_spec(x.0) + enc_spec(
            x.1,
        ));
        assert(enc_pairs_spec(s) == Seq::<u8>::empty());
        assert(Seq::<u8>::empty() + enc_spec(x.0) + enc_spec(x.1) =~= enc_spec(x.0) + enc_spec(
            x.1,
        ));
    } else {
        assert(s.push(x).drop_first() =~= s.drop_first().push(x));
        assert(s.push(x)[0] == s[0]);
        lemma_enc_pairs_push(s.drop_first(), x);
        assert(enc_pairs_spec(s.push(x)) == enc_spec(s[0].0) + enc_spec(s[0].1) + (enc_pairs_spec(
            s.drop_first(),
        ) + enc_spec(x.0) + enc_spec(x.1)));
        assert(enc_spec(s[0].0) + enc_spec(s[0].1) + (enc_pairs_spec(s.drop_first()) + enc_spec(
            x.0,
        ) + enc_spec(x.1)) =~= (enc_spec(s[0].0) + enc_spec(s[0].1) + enc_pairs_spec(
            s.drop_first(),
        )) + enc_spec(x.0) + enc_spec(x.1));
    }
}

/// Append the big-endian bytes of `n`, `w` bytes wide.
fn push_be(out: &mut Vec<u8>, n: u64, w: usize)
    requires
        w <= 8,
    ensures
        final(out)@ == old(out)@ + be_seq(n as nat, w as nat),
    decreases w,
{
    if w == 0 {
        assert(out@ =~= old(out)@ + be_seq(n as nat, 0));
    } else {
        push_be(out, n / 256, w - 1);
        let b: u8 = (n % 256) as u8;
        out.push(b);
        assert(out@ =~= old(out)@ + be_seq(n as nat, w as nat));
    }
}

/// Append the shortest CBOR header for major type `major` and argument
/// `arg`.
fn push_head(out: &mut Vec<u8>, major: u8, arg: u64)
    requires
        major < 8,
    ensures
        final(out)@ == old(out)@ + head_spec(major as nat, arg as nat),
{
    let base: u8 = major * 32;
    if arg < 24 {
        out.push(base + (arg as u8));
        assert(out@ =~= old(out)@ + head_spec(major as nat, arg as nat));
    } else if arg < 256 {
        out.push(base + 24);
        out.push(arg as u8);
        assert(out@ =~= old(out)@ + head_spec(major as nat, arg as nat));
    } else if arg < 65536 {
        out.push(base + 25);
        let ghost mid = out@;
        push_be(out, arg, 2);
        assert(out@ =~= old(out)@ + head_spec(major as nat, arg as nat));
    } else if arg < 4294967296 {
        out.push(base + 26);
        let ghost mid = out@;
        push_be(out, arg, 4);
        assert(out@ =~= old(out)@ + head_spec(major as nat, arg as nat));
    } else {
        out.push(base + 27);
        let ghost mid = out@;
        push_be(out, arg, 8);
        assert(out@ =~= old(out)@ + head_spec(major as nat, arg as nat));
    }
}

/// Append a copy of `src`.
fn push_bytes(out: &mut Vec<u8>, src: &Vec<u8>)
    ensures
        final(out)@ == old(out)@ + src@,
{
    let mut i: usize = 0;
    while i < src.len()
        invariant
            i <= src@.len(),
            out@ == old(out)@ + src@.subrange(0, i as int),
        decreases src@.len() - i,
    {
        out.push(src[i]);
        assert(out@ =~= old(out)@ + src@.subrange(0, i + 1));
        i = i + 1;
    }
    assert(src@.subrange(0, src@.len() as int) =~= src@);
}

/// Encode a value into `out`, appending its canonical bytes. Returns
/// false, leaving `out` in an unspecified state, exactly when some integer
/// in the value is outside the CBOR range.
#[verifier::loop_isolation(false)]
#[verifier::rlimit(100)]
fn encode_into(v: &CborValue, out: &mut Vec<u8>) -> (ok: bool)
    requires
        cbor_wf(*v),
    ensures
        ok ==> final(out)@ == old(out)@ + enc_spec(*v) && encodable(*v),
        !ok ==> !encodable(*v),
    decreases *v,
{
    match v {
        CborValue::Null => {
            out.push(0xf6);
            assert(out@ =~= old(out)@ + enc_spec(*v));
            return true;
        }
        CborValue::Bool(b) => {
            if *b {
                out.push(0xf5);
            } else {
                out.push(0xf4);
            }
            assert(out@ =~= old(out)@ + enc_spec(*v));
            return true;
        }
        CborValue::Integer(i) => {
            let val = i.to_i128();
            if val >= 0 {
                if val > 0xffff_ffff_ffff_ffff {
                    return false;
                }
                push_head(out, 0, val as u64);
                assert((val as u64) as nat == i.value() as nat);
                assert(out@ == old(out)@ + enc_spec(*v));
                assert(encodable(*v));
                return true;
            } else {
                let mag: i128 = -1 - val;
                if mag > 0xffff_ffff_ffff_ffff {
                    return false;
                }
                push_head(out, 1, mag as u64);
                assert((mag as u64) as nat == (-1 - i.value()) as nat);
                assert(out@ == old(out)@ + enc_spec(*v));
                assert(encodable(*v));
                return true;
            }
        }
        CborValue::Float { bits, .. } => {
            out.push(0xfb);
            let ghost mid = out@;
            push_be(out, *bits, 8);
            assert(out@ =~= old(out)@ + enc_spec(*v));
            return true;
        }
        CborValue::Bytes(b) => {
            push_head(out, 2, b.len() as u64);
            let ghost mid = out@;
            push_bytes(out, b);
            assert(out@ =~= old(out)@ + enc_spec(*v));
            return true;
        }
        CborValue::Text(s) => {
            let bs = s.as_str().as_bytes_vec();
            push_head(out, 3, bs.len() as u64);
            let ghost mid = out@;
            push_bytes(out, &bs);
            assert(out@ =~= old(out)@ + enc_spec(*v));
            return true;
        }
        CborValue::Array(elems) => {
            push_head(out, 4, elems.len() as u64);
            let ghost base = out@;
            let mut i: usize = 0;
            while i < elems.len()
                invariant
                    i <= elems@.len(),
                    out@ == base + enc_seq_spec(elems@.subrange(0, i as int)),
                    forall|k: int| 0 <= k < i ==> encodable(#[trigger] elems@[k]),
                decreases elems@.len() - i,
            {
                proof {
                    assert(decreases_to!(*v => elems@[i as int]));
                    assert(cbor_wf(elems@[i as int]));
                }
                let ghost pre = out@;
                let ok = encode_into(&elems[i], out);
                if !ok {
                    return false;
                }
                proof {
                    lemma_enc_seq_push(elems@.subrange(0, i as int), elems@[i as int]);
                    assert(elems@.subrange(0, i as int).push(elems@[i as int])
                        =~= elems@.subrange(0, i + 1));
                    assert(out@ =~= base + enc_seq_spec(elems@.subrange(0, i + 1)));
                }
                i = i + 1;
            }
            proof {
                assert(elems@.subrange(0, elems@.len() as int) =~= elems@);
                assert(out@ =~= old(out)@ + enc_spec(*v));
            }
            return true;
        }
        CborValue::ItemMap(entries) => {
            push_head(out, 5, entries.len() as u64);
            let ghost base = out@;
            let mut i: usize = 0;
            while i < entries.len()
                invariant
                    i <= entries@.len(),
                    out@ == base + enc_pairs_spec(entries@.subrange(0, i as int)),
                    forall|k: int| 0 <= k < i ==> encodable(#[trigger] entries@[k].0)
                        && encodable(entries@[k].1),
                decreases entries@.len() - i,
            {
                proof {
                    assert(decreases_to!(*v => entries@[i as int]));
                    assert(decreases_to!(entries@[i as int] => entries@[i as int].0));
                    assert(decreases_to!(entries@[i as int] => entries@[i as int].1));
                    assert(cbor_wf(#[trigger] entries@[i as int].0));
                    assert(cbor_wf(entries@[i as int].1));
                }
                let ok_k = encode_into(&entries[i].0, out);
                if !ok_k {
                    return false;
                }
                let ok_v = encode_into(&entries[i].1, out);
                if !ok_v {
                    return false;
                }
                proof {
                    lemma_enc_pairs_push(entries@.subrange(0, i as int), entries@[i as int]);
                    assert(entries@.subrange(0, i as int).push(entries@[i as int])
                        =~= entries@.subrange(0, i + 1));
                    assert(out@ =~= base + enc_pairs_spec(entries@.subrange(0, i + 1)));
                    assert forall|k: int| 0 <= k < i + 1 implies encodable(
                        #[trigger] entries@[k].0,
                    ) && encodable(entries@[k].1) by {
                        if k == i {
                            assert(encodable(entries@[i as int].0));
                            assert(encodable(entries@[i as int].1));
                        }
                    }
                }
                i = i + 1;
            }
            proof {
                assert(entries@.subrange(0, entries@.len() as int) =~= entries@);
                assert(out@ =~= old(out)@ + enc_spec(*v));
                assert(encodable(*v));
            }
            return true;
        }
        CborValue::Tag(id, inner) => {
            push_head(out, 6, *id);
            let ok = encode_into(inner, out);
            if !ok {
                return false;
            }
            assert(out@ =~= old(out)@ + enc_spec(*v));
            return true;
        }
    }
}

/// Encode a value as canonical CBOR. Fails, with `IntegerOutOfRange`,
/// exactly when some integer in the value is outside `[-2^64, 2^64 - 1]`.
pub fn encode_cbor(v: &CborValue) -> (r: Result<Vec<u8>, CborError>)
    requires
        cbor_wf(*v),
    ensures
        match r {
            Ok(b) => encodable(*v) && b@ == enc_spec(*v),
            Err(e) => !encodable(*v) && e == CborError::IntegerOutOfRange,
        },
{
    let mut out: Vec<u8> = Vec::new();
    let ok = encode_into(v, &mut out);
    if ok {
        assert(out@ =~= enc_spec(*v));
        Ok(out)
    } else {
        Err(CborError::IntegerOutOfRange)
    }
}


/// What the parser guarantees about a parsed item: the consumed bytes are
/// exactly the canonical encoding of the returned value.
pub open spec fn parse_ok(bs: Seq<u8>, pos: int, v: CborValue, end: int) -> bool {
    &&& pos < end <= bs.len()
    &&& cbor_wf(v)
    &&& encodable(v)
    &&& canonical_order(v)
    &&& bs.subrange(pos, end) == enc_spec(v)
}

/// Read `w` big-endian bytes starting at `from`.
fn read_be(b: &[u8], from: usize, w: usize) -> (r: u64)
    requires
        w <= 8,
        from + w <= b@.len(),
    ensures
        r as nat == be_nat(b@.subrange(from as int, from + w)),
        r < pow256(w as nat),
{
    proof {
        lemma_pow256_16();
    }
    let blen = b.len();
    let mut acc: u64 = 0;
    let mut i: usize = 0;
    while i < w
        invariant
            w <= 8,
            blen == b@.len(),
            from + w <= blen,
            i <= w,
            acc as nat == be_nat(b@.subrange(from as int, from + i)),
            acc < pow256(i as nat),
        decreases w - i,
    {
        proof {
            lemma_pow256_monotone((i + 1) as nat, 8);
            assert(pow256(8) == 0x1_0000_0000_0000_0000) by {
                lemma_pow256_16();
            }
            assert(acc * 256 + 256 <= pow256(i as nat) * 256) by (nonlinear_arith)
                requires
                    acc + 1 <= pow256(i as nat),
            ;
        }
        let byte = b[from + i];
        acc = acc * 256 + (byte as u64);
        proof {
            let s1 = b@.subrange(from as int, from + i + 1);
            assert(s1.drop_last() =~= b@.subrange(from as int, from + i));
            assert(be_nat(s1) == be_nat(s1.drop_last()) * 256 + byte);
        }
        i = i + 1;
    }
    acc
}

/// Copy the bytes in `[from, to)` out of the input.
fn copy_range(b: &[u8], from: usize, to: usize) -> (v: Vec<u8>)
    requires
        from <= to <= b@.len(),
    ensures
        v@ == b@.subrange(from as int, to as int),
{
    let mut v: Vec<u8> = Vec::new();
    let mut i: usize = from;
    while i < to
        invariant
            from <= i <= to <= b@.len(),
            v@ == b@.subrange(from as int, i as int),
        decreases to - i,
    {
        v.push(b[i]);
        assert(v@ =~= b@.subrange(from as int, i + 1));
        i = i + 1;
    }
    v
}



/// Read an item header with an integer argument, demanding the shortest
/// form: the consumed bytes are exactly the canonical header for the
/// byte's major type and the returned argument.
#[verifier::rlimit(60)]
fn read_header(b: &[u8], pos: usize) -> (r: Result<(u64, usize), CborError>)
    requires
        pos < b@.len(),
    ensures
        r matches Ok(p) ==> {
            &&& pos < p.1 <= b@.len()
            &&& b@.subrange(pos as int, p.1 as int) == head_spec(
                (b@[pos as int] >> 5) as nat,
                p.0 as nat,
            )
        },
{
    let ib = b[pos];
    let major: u8 = ib >> 5;
    let ai: u8 = ib & 0x1f;
    proof {
        assert((ib >> 5) < 8 && (ib & 0x1f) < 32 && ((ib >> 5) * 32 + (ib & 0x1f)) == ib)
            by (bit_vector);
    }
    let arg: u64;
    let hl: usize;
    if ai < 24 {
        arg = ai as u64;
        hl = 1;
    } else if ai == 24 {
        if b.len() - pos < 2 {
            return Err(CborError::Truncated);
        }
        let x = b[pos + 1];
        if x < 24 {
            return Err(CborError::NonMinimal);
        }
        arg = x as u64;
        hl = 2;
    } else if ai == 25 {
        if b.len() - pos < 3 {
            return Err(CborError::Truncated);
        }
        let a = read_be(b, pos + 1, 2);
        if a < 0x100 {
            return Err(CborError::NonMinimal);
        }
        arg = a;
        hl = 3;
    } else if ai == 26 {
        if b.len() - pos < 5 {
            return Err(CborError::Truncated);
        }
        let a = read_be(b, pos + 1, 4);
        if a < 0x10000 {
            return Err(CborError::NonMinimal);
        }
        arg = a;
        hl = 5;
    } else if ai == 27 {
        if b.len() - pos < 9 {
            return Err(CborError::Truncated);
        }
        let a = read_be(b, pos + 1, 8);
        if a < 0x1_0000_0000 {
            return Err(CborError::NonMinimal);
        }
        arg = a;
        hl = 9;
    } else if ai == 31 {
        return Err(CborError::UnsupportedValue);
    } else {
        return Err(CborError::Malformed);
    }
    let hend = pos + hl;
    proof {
        lemma_pow256_16();
        if hl == 3 {
            lemma_be_seq_of_be_nat(b@.subrange(pos + 1, pos + 3));
            assert(be_seq(arg as nat, 2) =~= b@.subrange(pos + 1, pos + 3));
        }
        if hl == 5 {
            lemma_be_seq_of_be_nat(b@.subrange(pos + 1, pos + 5));
            assert(be_seq(arg as nat, 4) =~= b@.subrange(pos + 1, pos + 5));
        }
        if hl == 9 {
            lemma_be_seq_of_be_nat(b@.subrange(pos + 1, pos + 9));
            assert(be_seq(arg as nat, 8) =~= b@.subrange(pos + 1, pos + 9));
        }
        assert(b@.subrange(pos as int, hend as int) =~= head_spec(major as nat, arg as nat));
    }
    Ok((arg, hend))
}

/// Parse `cnt` consecutive items.
#[verifier::loop_isolation(false)]
#[verifier::rlimit(60)]
fn parse_array_items(b: &[u8], start: usize, cnt: usize) -> (r: Result<
    (Vec<CborValue>, usize),
    CborError,
>)
    requires
        start <= b@.len(),
    ensures
        r matches Ok(p) ==> {
            &&& start <= p.1 <= b@.len()
            &&& p.0@.len() == cnt
            &&& b@.subrange(start as int, p.1 as int) == enc_seq_spec(p.0@)
            &&& forall|k: int|
                0 <= k < p.0@.len() ==> cbor_wf(#[trigger] p.0@[k]) && encodable(p.0@[k])
                    && canonical_order(p.0@[k])
        },
    decreases b@.len() - start, 1nat,
{
    let mut elems: Vec<CborValue> = Vec::new();
    let mut cur = start;
    assert(b@.subrange(start as int, cur as int) =~= enc_seq_spec(elems@));
    let mut i: usize = 0;
    while i < cnt
        invariant
            elems@.len() == i,
            i <= cnt,
            start <= cur <= b@.len(),
            b@.subrange(start as int, cur as int) == enc_seq_spec(elems@),
            forall|k: int| 0 <= k < i ==> cbor_wf(#[trigger] elems@[k]) && encodable(elems@[k])
                && canonical_order(elems@[k]),
        decreases cnt - i,
    {
        match parse_at(b, cur) {
            Ok((item, nend)) => {
                proof {
                    lemma_enc_seq_push(elems@, item);
                    assert(b@.subrange(start as int, nend as int) =~= b@.subrange(
                        start as int,
                        cur as int,
                    ) + b@.subrange(cur as int, nend as int));
                }
                elems.push(item);
                cur = nend;
            }
            Err(e) => {
                return Err(e);
            }
        }
        i = i + 1;
    }
    Ok((elems, cur))
}

/// Parse `cnt` consecutive key/value pairs, demanding strictly
/// ascending keys.
#[verifier::loop_isolation(false)]
#[verifier::rlimit(60)]
fn parse_map_items(b: &[u8], start: usize, cnt: usize) -> (r: Result<
    (Vec<(CborValue, CborValue)>, usize),
    CborError,
>)
    requires
        start <= b@.len(),
    ensures
        r matches Ok(p) ==> {
            &&& start <= p.1 <= b@.len()
            &&& p.0@.len() == cnt
            &&& b@.subrange(start as int, p.1 as int) == enc_pairs_spec(p.0@)
            &&& forall|k: int|
                0 <= k < p.0@.len() ==> cbor_wf(#[trigger] p.0@[k].0) && cbor_wf(p.0@[k].1)
                    && encodable(p.0@[k].0) && encodable(p.0@[k].1) && canonical_order(
                    p.0@[k].0,
                ) && canonical_order(p.0@[k].1)
            &&& forall|j: int|
                0 <= j < p.0@.len() - 1 ==> cmp_spec(#[trigger] p.0@[j].0, p.0@[j + 1].0) == -1
        },
    decreases b@.len() - start, 1nat,
{
    let mut entries: Vec<(CborValue, CborValue)> = Vec::new();
    let mut cur = start;
    assert(b@.subrange(start as int, cur as int) =~= enc_pairs_spec(entries@));
    let mut i: usize = 0;
    while i < cnt
        invariant
            entries@.len() == i,
            i <= cnt,
            start <= cur <= b@.len(),
            b@.subrange(start as int, cur as int) == enc_pairs_spec(entries@),
            forall|k: int| 0 <= k < i ==> cbor_wf(#[trigger] entries@[k].0) && cbor_wf(
                entries@[k].1,
            ) && encodable(entries@[k].0) && encodable(entries@[k].1) && canonical_order(
                entries@[k].0,
            ) && canonical_order(entries@[k].1),
            forall|j: int| 0 <= j < i - 1 ==> cmp_spec(
                #[trigger] entries@[j].0,
                entries@[j + 1].0,
            ) == -1,
        decreases cnt - i,
    {
        let key: CborValue;
        let kend: usize;
        match parse_at(b, cur) {
            Ok((k, e)) => {
                key = k;
                kend = e;
            }
            Err(e) => {
                return Err(e);
            }
        }
        if i > 0 {
            let c = crate::cbor::cbor_cmp(&entries[i - 1].0, &key);
            if c != -1 {
                return Err(CborError::UnsortedKeys);
            }
        }
        let val: CborValue;
        let vend: usize;
        match parse_at(b, kend) {
            Ok((v, e)) => {
                val = v;
                vend = e;
            }
            Err(e) => {
                return Err(e);
            }
        }
        proof {
            lemma_enc_pairs_push(entries@, (key, val));
            assert(b@.subrange(cur as int, vend as int) =~= b@.subrange(cur as int, kend as int)
                + b@.subrange(kend as int, vend as int));
            assert(b@.subrange(start as int, vend as int) =~= b@.subrange(
                start as int,
                cur as int,
            ) + b@.subrange(cur as int, vend as int));
        }
        entries.push((key, val));
        cur = vend;
        i = i + 1;
    }
    Ok((entries, cur))
}

/// Parse one item starting at `pos`. On success the consumed bytes are
/// exactly the canonical encoding of the returned value; the parser
/// rejects anything outside the deterministic profile, so nothing is
/// claimed of rejected inputs.
#[verifier::rlimit(100)]
pub fn parse_at(b: &[u8], pos: usize) -> (r: Result<(CborValue, usize), CborError>)
    requires
        pos <= b@.len(),
    ensures
        r matches Ok(p) ==> parse_ok(b@, pos as int, p.0, p.1 as int),
    decreases b@.len() - pos, 0nat,
{
    if pos >= b.len() {
        return Err(CborError::Truncated);
    }
    let ib = b[pos];
    let major: u8 = ib >> 5;
    let ai: u8 = ib & 0x1f;
    proof {
        assert((ib >> 5) < 8 && (ib & 0x1f) < 32 && ((ib >> 5) * 32 + (ib & 0x1f)) == ib)
            by (bit_vector);
    }
    if major == 7 {
        if ai == 20 {
            let v = CborValue::Bool(false);
            assert(b@.subrange(pos as int, pos + 1) =~= enc_spec(v));
            return Ok((v, pos + 1));
        }
        if ai == 21 {
            let v = CborValue::Bool(true);
            assert(b@.subrange(pos as int, pos + 1) =~= enc_spec(v));
            return Ok((v, pos + 1));
        }
        if ai == 22 {
            let v = CborValue::Null;
            assert(b@.subrange(pos as int, pos + 1) =~= enc_spec(v));
            return Ok((v, pos + 1));
        }
        if ai == 25 || ai == 26 || ai == 27 || ai == 31 {
            return Err(CborError::UnsupportedValue);
        }
        return Err(CborError::Malformed);
    }
    let (arg, hend) = match read_header(b, pos) {
        Ok(p) => p,
        Err(e) => {
            return Err(e);
        }
    };
    if major == 0 {
        let i = CborInteger::from_i128(arg as i128);
        let v = CborValue::Integer(i);
        assert(b@.subrange(pos as int, hend as int) == enc_spec(v));
        return Ok((v, hend));
    }
    if major == 1 {
        let val: i128 = -1 - (arg as i128);
        let i = CborInteger::from_i128(val);
        let v = CborValue::Integer(i);
        assert((-1 - i.value()) as nat == arg as nat);
        assert(b@.subrange(pos as int, hend as int) == enc_spec(v));
        return Ok((v, hend));
    }
    if major == 2 || major == 3 {
        let rem = b.len() - hend;
        if arg > rem as u64 {
            return Err(CborError::Truncated);
        }
        let n = arg as usize;
        assert(n as nat == arg as nat);
        let data = copy_range(b, hend, hend + n);
        let dend = hend + n;
        if major == 2 {
            let v = CborValue::Bytes(data);
            proof {
                assert(b@.subrange(pos as int, dend as int) =~= b@.subrange(
                    pos as int,
                    hend as int,
                ) + b@.subrange(hend as int, dend as int));
                assert(b@.subrange(pos as int, dend as int) =~= enc_spec(v));
            }
            return Ok((v, dend));
        }
        match string_from_utf8(data) {
            Some(s) => {
                let v = CborValue::Text(s);
                proof {
                    assert(encode_utf8(s@) == b@.subrange(hend as int, dend as int));
                    assert(b@.subrange(pos as int, dend as int) =~= b@.subrange(
                        pos as int,
                        hend as int,
                    ) + b@.subrange(hend as int, dend as int));
                    assert(b@.subrange(pos as int, dend as int) =~= enc_spec(v));
                }
                return Ok((v, dend));
            }
            None => {
                return Err(CborError::InvalidUtf8);
            }
        }
    }
    if major == 4 {
        let rem = b.len() - hend;
        if arg > rem as u64 {
            return Err(CborError::Truncated);
        }
        let cnt = arg as usize;
        assert(cnt as nat == arg as nat);
        match parse_array_items(b, hend, cnt) {
            Ok((elems, cur)) => {
                let v = CborValue::Array(elems);
                proof {
                    assert(b@.subrange(pos as int, cur as int) =~= b@.subrange(
                        pos as int,
                        hend as int,
                    ) + b@.subrange(hend as int, cur as int));
                    assert(b@.subrange(pos as int, cur as int) =~= enc_spec(v));
                    assert(cbor_wf(v) && encodable(v) && canonical_order(v));
                }
                return Ok((v, cur));
            }
            Err(e) => {
                return Err(e);
            }
        }
    }
    if major == 5 {
        let rem = b.len() - hend;
        if arg > rem as u64 {
            return Err(CborError::Truncated);
        }
        let cnt = arg as usize;
        assert(cnt as nat == arg as nat);
        match parse_map_items(b, hend, cnt) {
            Ok((entries, cur)) => {
                let v = CborValue::ItemMap(entries);
                proof {
                    assert(b@.subrange(pos as int, cur as int) =~= b@.subrange(
                        pos as int,
                        hend as int,
                    ) + b@.subrange(hend as int, cur as int));
                    assert(b@.subrange(pos as int, cur as int) =~= enc_spec(v));
                    assert(cbor_wf(v) && encodable(v) && canonical_order(v));
                }
                return Ok((v, cur));
            }
            Err(e) => {
                return Err(e);
            }
        }
    }
    if major == 6 {
        match parse_at(b, hend) {
            Ok((inner, iend)) => {
                let v = CborValue::Tag(arg, Box::new(inner));
                proof {
                    assert(b@.subrange(pos as int, iend as int) =~= b@.subrange(
                        pos as int,
                        hend as int,
                    ) + b@.subrange(hend as int, iend as int));
                    assert(b@.subrange(pos as int, iend as int) =~= enc_spec(v));
                }
                return Ok((v, iend));
            }
            Err(e) => {
                return Err(e);
            }
        }
    }
    Err(CborError::Malformed)
}

/// Decode one canonical CBOR item that spans the whole input.
///
/// On success the input is exactly the canonical encoding of the returned
/// value, which is the content of the round-trip law: re-encoding the
/// value reproduces the input byte for byte.
pub fn decode_cbor(b: &[u8]) -> (r: Result<CborValue, CborError>)
    ensures
        r matches Ok(v) ==> cbor_wf(v) && encodable(v) && canonical_order(v) && b@ == enc_spec(
            v,
        ),
{
    match parse_at(b, 0) {
        Ok((v, end)) => {
            if end != b.len() {
                return Err(CborError::TrailingBytes);
            }
            proof {
                assert(b@.subrange(0, b@.len() as int) =~= b@);
            }
            Ok(v)
        }
        Err(e) => Err(e),
    }
}

/// Law: a byte string accepted by the canonical decoder re-encodes to
/// itself. Whenever decoding succeeds, encoding the decoded value yields
/// exactly the input bytes.
pub fn reencode_canonical(bytes: &[u8]) -> (r: Option<Vec<u8>>)
    ensures
        r matches Some(out) ==> out@ == bytes@,
{
    match decode_cbor(bytes) {
        Ok(v) => {
            match encode_cbor(&v) {
                Ok(out) => {
                    assert(out@ == bytes@);
                    Some(out)
                }
                Err(_) => {
                    proof {
                        assert(false);
                    }
                    None
                }
            }
        }
        Err(_) => None,
    }
}

} // verus!\n