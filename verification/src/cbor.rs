use vstd::prelude::*;
use vstd::arithmetic::div_mod::lemma_mod_breakdown;
use crate::text::{decimal_of, i128_to_decimal};

verus! {

/// 256 raised to the power `k`.
pub open spec fn pow256(k: nat) -> nat
    decreases k,
{
    if k == 0 {
        1
    } else {
        256 * pow256((k - 1) as nat)
    }
}

/// The unsigned integer denoted by a big-endian byte string.
pub open spec fn be_nat(s: Seq<u8>) -> nat
    decreases s.len(),
{
    if s.len() == 0 {
        0
    } else {
        (be_nat(s.drop_last()) * 256 + s.last()) as nat
    }
}

pub proof fn lemma_be_nat_bound(s: Seq<u8>)
    ensures
        be_nat(s) < pow256(s.len()),
    decreases s.len(),
{
    if s.len() > 0 {
        lemma_be_nat_bound(s.drop_last());
    }
}

pub proof fn lemma_pow256_16()
    ensures
        pow256(1) == 0x100,
        pow256(2) == 0x1_0000,
        pow256(4) == 0x1_0000_0000,
        pow256(8) == 0x1_0000_0000_0000_0000,
        pow256(16) == 0x1_0000_0000_0000_0000_0000_0000_0000_0000,
{
    reveal_with_fuel(pow256, 17);
}

/// A 128-bit integer carried as its 16-byte big-endian two's-complement buffer.
///
/// This is wide enough to hold every unsigned 64-bit CBOR integer and the
/// negated counterparts that major type 1 denotes.
#[derive(Debug, Clone)]
pub struct CborInteger {
    bytes: Vec<u8>,
}

impl CborInteger {
    /// Well-formed: the buffer holds exactly 16 bytes. Every constructor
    /// establishes this and every method preserves it.
    pub closed spec fn inv(&self) -> bool {
        self.bytes@.len() == 16
    }

    /// The integer denoted by the buffer, read as big-endian two's complement.
    pub closed spec fn value(&self) -> int {
        let u = be_nat(self.bytes@);
        if u >= 0x8000_0000_0000_0000_0000_0000_0000_0000 {
            u - 0x1_0000_0000_0000_0000_0000_0000_0000_0000
        } else {
            u as int
        }
    }

    /// Build the most significant `k` missing bytes of `u`, recursively.
    fn be_bytes_of(u: u128, k: usize) -> (v: Vec<u8>)
        requires
            k <= 16,
        ensures
            v@.len() == k,
            be_nat(v@) == (u as nat) % pow256(k as nat),
        decreases k,
    {
        if k == 0 {
            let v: Vec<u8> = Vec::new();
            assert(v@ =~= Seq::<u8>::empty());
            assert((u as nat) % pow256(0) == 0) by {
                assert(pow256(0) == 1);
            }
            v
        } else {
            let mut v = Self::be_bytes_of(u / 256, k - 1);
            let b: u8 = (u % 256) as u8;
            let ghost pre = v@;
            v.push(b);
            proof {
                assert(v@.drop_last() =~= pre);
                assert(be_nat(v@) == be_nat(pre) * 256 + b);
                lemma_pow256_monotone(0, (k - 1) as nat);
                let x = u as int;
                let m = pow256((k - 1) as nat) as int;
                lemma_mod_breakdown(x, 256, m);
                assert(x % (256 * m) == 256 * ((x / 256) % m) + x % 256);
                assert(256 * pow256((k - 1) as nat) == pow256(k as nat));
                assert((u / 256) as int == x / 256);
                assert(b as int == x % 256);
                assert(be_nat(pre) as int == (x / 256) % m);
                assert(be_nat(v@) as int == x % (256 * m));
            }
            v
        }
    }

    /// Construct the integer from an `i128` value.
    pub fn from_i128(value: i128) -> (r: Self)
        ensures
            r.inv(),
            r.value() == value,
    {
        #[verifier::truncate]
        let u: u128 = value as u128;
        proof {
            lemma_pow256_16();
            if value >= 0 {
                assert(u == value);
            } else {
                assert(u as int == value + 0x1_0000_0000_0000_0000_0000_0000_0000_0000)
                    by (bit_vector)
                    requires
                        u == value as u128,
                        value < 0,
                ;
            }
        }
        let bytes = Self::be_bytes_of(u, 16);
        let r = CborInteger { bytes };
        proof {
            assert(be_nat(r.bytes@) == u as nat);
        }
        r
    }

    /// Read the buffer back as an `i128`.
    pub fn to_i128(&self) -> (r: i128)
        requires
            self.inv(),
        ensures
            r == self.value(),
    {
        proof {
            lemma_pow256_16();
        }
        let mut acc: u128 = 0;
        let mut i: usize = 0;
        while i < 16
            invariant
                self.bytes@.len() == 16,
                i <= 16,
                acc as nat == be_nat(self.bytes@.subrange(0, i as int)),
                acc < pow256(i as nat),
            decreases 16 - i,
        {
            proof {
                lemma_be_nat_bound(self.bytes@.subrange(0, i as int));
                assert(pow256((i + 1) as nat) == 256 * pow256(i as nat));
                lemma_pow256_16();
                assert(pow256(i as nat) <= pow256(16)) by {
                    lemma_pow256_monotone(i as nat, 16);
                }
                assert(acc * 256 + 255 < 0x1_0000_0000_0000_0000_0000_0000_0000_0000) by {
                    assert(acc < pow256(i as nat));
                    assert(i < 16);
                    lemma_pow256_monotone((i + 1) as nat, 16);
                    assert(acc * 256 + 256 <= pow256(i as nat) * 256) by (nonlinear_arith)
                        requires
                            acc + 1 <= pow256(i as nat),
                    ;
                }
            }
            let b = self.bytes[i];
            let ghost old_acc = acc;
            acc = acc * 256 + (b as u128);
            proof {
                let s1 = self.bytes@.subrange(0, (i + 1) as int);
                assert(s1.drop_last() =~= self.bytes@.subrange(0, i as int));
                assert(be_nat(s1) == be_nat(s1.drop_last()) * 256 + b);
            }
            i = i + 1;
        }
        proof {
            assert(self.bytes@.subrange(0, 16) =~= self.bytes@);
        }
        #[verifier::truncate]
        let r: i128 = acc as i128;
        proof {
            if acc >= 0x8000_0000_0000_0000_0000_0000_0000_0000 {
                assert(r as int == acc - 0x1_0000_0000_0000_0000_0000_0000_0000_0000)
                    by (bit_vector)
                    requires
                        r == acc as i128,
                        acc >= 0x8000_0000_0000_0000_0000_0000_0000_0000,
                ;
            } else {
                assert(r == acc);
            }
        }
        r
    }

    /// The least significant 8 bytes of the buffer, read big-endian.
    pub fn lower_bytes(&self) -> (r: u64)
        requires
            self.inv(),
        ensures
            r as nat == be_nat(self.byte_view().subrange(8, 16)),
    {
        self.read_half(8)
    }

    /// The most significant 8 bytes of the buffer, read big-endian.
    pub fn upper_bytes(&self) -> (r: u64)
        requires
            self.inv(),
        ensures
            r as nat == be_nat(self.byte_view().subrange(0, 8)),
    {
        self.read_half(0)
    }

    /// The byte buffer itself, as a mathematical sequence.
    pub closed spec fn byte_view(&self) -> Seq<u8> {
        self.bytes@
    }

    /// The number of bytes in the buffer: always 16.
    pub fn byte_count(&self) -> (n: usize)
        requires
            self.inv(),
        ensures
            n == 16,
            self.byte_view().len() == 16,
    {
        self.bytes.len()
    }

    fn read_half(&self, start: usize) -> (r: u64)
        requires
            self.inv(),
            start == 0 || start == 8,
        ensures
            r as nat == be_nat(self.byte_view().subrange(start as int, start + 8)),
    {
        let mut acc: u64 = 0;
        let mut i: usize = start;
        while i < start + 8
            invariant
                self.bytes@.len() == 16,
                start == 0 || start == 8,
                start <= i <= start + 8,
                acc as nat == be_nat(self.bytes@.subrange(start as int, i as int)),
                acc < pow256((i - start) as nat),
            decreases start + 8 - i,
        {
            proof {
                assert(pow256(8) == 0x1_0000_0000_0000_0000) by {
                    lemma_pow256_16();
                }
                lemma_pow256_monotone((i - start + 1) as nat, 8);
                assert(acc * 256 + 256 <= pow256((i - start) as nat) * 256) by (nonlinear_arith)
                    requires
                        acc + 1 <= pow256((i - start) as nat),
                ;
            }
            let b = self.bytes[i];
            acc = acc * 256 + (b as u64);
            proof {
                let s1 = self.bytes@.subrange(start as int, (i + 1) as int);
                assert(s1.drop_last() =~= self.bytes@.subrange(start as int, i as int));
                assert(be_nat(s1) == be_nat(s1.drop_last()) * 256 + b);
            }
            i = i + 1;
        }
        acc
    }

    /// Copy the integer, byte for byte.
    pub fn clone_exact(&self) -> (r: CborInteger)
        requires
            self.inv(),
        ensures
            r.inv(),
            r.value() == self.value(),
            r.byte_view() == self.byte_view(),
    {
        let mut bytes: Vec<u8> = Vec::new();
        let mut i: usize = 0;
        while i < self.bytes.len()
            invariant
                self.bytes@.len() == 16,
                i <= 16,
                bytes@ == self.bytes@.subrange(0, i as int),
            decreases 16 - i,
        {
            bytes.push(self.bytes[i]);
            assert(bytes@ =~= self.bytes@.subrange(0, i + 1));
            i = i + 1;
        }
        proof {
            assert(self.bytes@.subrange(0, 16) =~= self.bytes@);
        }
        CborInteger { bytes }
    }

    /// Render the integer in decimal.
    pub fn to_text(&self) -> (s: String)
        requires
            self.inv(),
        ensures
            s@ == decimal_of(self.value()),
    {
        let v = self.to_i128();
        i128_to_decimal(v)
    }
}

pub proof fn lemma_pow256_monotone(a: nat, b: nat)
    requires
        a <= b,
    ensures
        pow256(a) <= pow256(b),
    decreases b,
{
    if a < b {
        lemma_pow256_monotone(a, (b - 1) as nat);
        assert(pow256(b) == 256 * pow256((b - 1) as nat));
    }
}


/// A CBOR data item.
///
/// Text is carried as a Rust string, integers in a `CborInteger`, and floats
/// as the raw bits of a 64-bit IEEE value together with a display rendering
/// supplied at the boundary (display text is informational, never parsed).
/// Map entries are kept as an ordered list of key/value pairs.
#[derive(Debug)]
pub enum CborValue {
    Null,
    Bool(bool),
    Integer(CborInteger),
    Float { bits: u64, text: String },
    Bytes(Vec<u8>),
    Text(String),
    Array(Vec<CborValue>),
    ItemMap(Vec<(CborValue, CborValue)>),
    Tag(u64, Box<CborValue>),
}

/// Well-formedness: every integer buffer in the tree holds its 16 bytes.
pub open spec fn cbor_wf(v: CborValue) -> bool
    decreases v,
{
    match v {
        CborValue::Integer(i) => i.inv(),
        CborValue::Array(elems) => forall|k: int|
            0 <= k < elems@.len() ==> cbor_wf(#[trigger] elems@[k]),
        CborValue::ItemMap(entries) => forall|k: int|
            0 <= k < entries@.len() ==> cbor_wf(#[trigger] entries@[k].0) && cbor_wf(
                entries@[k].1,
            ),
        CborValue::Tag(_, inner) => cbor_wf(*inner),
        _ => true,
    }
}

/// The sign of an integer: -1, 0 or 1.
pub open spec fn sign(i: int) -> int {
    if i < 0 {
        -1
    } else if i == 0 {
        0
    } else {
        1
    }
}

/// The CBOR major type that governs canonical ordering: non-negative
/// integers are 0, negative integers 1, byte strings 2, text strings 3,
/// arrays 4, maps 5, tags 6, and the simple values and floats 7.
pub open spec fn major_type_spec(v: CborValue) -> int {
    match v {
        CborValue::Integer(i) => if i.value() >= 0 {
            0
        } else {
            1
        },
        CborValue::Bytes(_) => 2,
        CborValue::Text(_) => 3,
        CborValue::Array(_) => 4,
        CborValue::ItemMap(_) => 5,
        CborValue::Tag(_, _) => 6,
        _ => 7,
    }
}

/// Rank of the major-type-7 values among themselves, following the CBOR
/// simple-value numbering (false 20, true 21, null 22) with floats after.
pub open spec fn simple_rank(v: CborValue) -> int {
    match v {
        CborValue::Bool(b) => if b {
            21
        } else {
            20
        },
        CborValue::Null => 22,
        _ => 23,
    }
}

/// True when the bits denote an IEEE 754 binary64 NaN.
pub open spec fn f64_bits_is_nan(x: u64) -> bool {
    (x >> 52) & 0x7ff == 0x7ff && (x & 0xf_ffff_ffff_ffff) != 0
}

/// A signed-magnitude key that orders non-NaN IEEE 754 binary64 values
/// numerically: both zeros map to 0, positive values to magnitude + 1,
/// negative values to the negated magnitude - 1.
pub open spec fn f64_bits_ord(x: u64) -> int {
    if x & 0x7fff_ffff_ffff_ffff == 0 {
        0
    } else if (x >> 63) == 0 {
        (x & 0x7fff_ffff_ffff_ffff) + 1
    } else {
        -((x & 0x7fff_ffff_ffff_ffff) + 1)
    }
}

/// Numeric comparison of two binary64 values by their bits; a NaN on
/// either side compares as equal, as an unordered comparison collapses to
/// equality in this total order.
pub open spec fn float_cmp_bits(a: u64, b: u64) -> int {
    if f64_bits_is_nan(a) || f64_bits_is_nan(b) {
        0
    } else {
        sign(f64_bits_ord(a) - f64_bits_ord(b))
    }
}

/// Lexicographic comparison of byte strings.
pub open spec fn lex_cmp_u8(a: Seq<u8>, b: Seq<u8>) -> int
    decreases a.len(),
{
    if a.len() == 0 && b.len() == 0 {
        0
    } else if a.len() == 0 {
        -1
    } else if b.len() == 0 {
        1
    } else if a[0] < b[0] {
        -1
    } else if a[0] > b[0] {
        1
    } else {
        lex_cmp_u8(a.drop_first(), b.drop_first())
    }
}

/// Lexicographic comparison of character strings by code point.
pub open spec fn lex_cmp_char(a: Seq<char>, b: Seq<char>) -> int
    decreases a.len(),
{
    if a.len() == 0 && b.len() == 0 {
        0
    } else if a.len() == 0 {
        -1
    } else if b.len() == 0 {
        1
    } else if (a[0] as u32) < (b[0] as u32) {
        -1
    } else if (a[0] as u32) > (b[0] as u32) {
        1
    } else {
        lex_cmp_char(a.drop_first(), b.drop_first())
    }
}

/// Total comparison of two CBOR values: first by major type, and within a
/// type bytewise or elementwise, with maps ordered by length before
/// entries. This ordering is the one canonical encoding relies on.
pub open spec fn cmp_spec(a: CborValue, b: CborValue) -> int
    decreases a,
{
    if major_type_spec(a) != major_type_spec(b) {
        sign(major_type_spec(a) - major_type_spec(b))
    } else {
        match (a, b) {
            (CborValue::Integer(x), CborValue::Integer(y)) => sign(x.value() - y.value()),
            (CborValue::Bytes(x), CborValue::Bytes(y)) => lex_cmp_u8(x@, y@),
            (CborValue::Text(x), CborValue::Text(y)) => lex_cmp_char(x@, y@),
            (CborValue::Array(x), CborValue::Array(y)) => seq_cmp_spec(x@, y@),
            (CborValue::ItemMap(x), CborValue::ItemMap(y)) => if x@.len() < y@.len() {
                -1
            } else if x@.len() > y@.len() {
                1
            } else {
                pairs_cmp_spec(x@, y@)
            },
            (CborValue::Tag(i, x), CborValue::Tag(j, y)) => if i < j {
                -1
            } else if i > j {
                1
            } else {
                cmp_spec(*x, *y)
            },
            (CborValue::Float { bits: x, .. }, CborValue::Float { bits: y, .. }) => float_cmp_bits(
                x,
                y,
            ),
            _ => sign(simple_rank(a) - simple_rank(b)),
        }
    }
}

/// Lexicographic elementwise comparison of two value sequences.
pub open spec fn seq_cmp_spec(x: Seq<CborValue>, y: Seq<CborValue>) -> int
    decreases x,
{
    if x.len() == 0 && y.len() == 0 {
        0
    } else if x.len() == 0 {
        -1
    } else if y.len() == 0 {
        1
    } else if cmp_spec(x[0], y[0]) != 0 {
        cmp_spec(x[0], y[0])
    } else {
        seq_cmp_spec(x.drop_first(), y.drop_first())
    }
}

/// Elementwise comparison of map entries: keys first, values on a tie.
pub open spec fn pairs_cmp_spec(
    x: Seq<(CborValue, CborValue)>,
    y: Seq<(CborValue, CborValue)>,
) -> int
    decreases x,
{
    if x.len() == 0 && y.len() == 0 {
        0
    } else if x.len() == 0 {
        -1
    } else if y.len() == 0 {
        1
    } else if cmp_spec(x[0].0, y[0].0) != 0 {
        cmp_spec(x[0].0, y[0].0)
    } else if cmp_spec(x[0].1, y[0].1) != 0 {
        cmp_spec(x[0].1, y[0].1)
    } else {
        pairs_cmp_spec(x.drop_first(), y.drop_first())
    }
}

/// Law: values of different major types order by their major types alone.
pub proof fn lemma_cmp_by_major_type(x: CborValue, y: CborValue)
    requires
        major_type_spec(x) != major_type_spec(y),
    ensures
        sign(cmp_spec(x, y)) == sign(major_type_spec(x) - major_type_spec(y)),
{
}


pub proof fn lemma_lex_u8_skip(x: Seq<u8>, y: Seq<u8>, i: int)
    requires
        0 <= i <= x.len(),
        i <= y.len(),
        forall|j: int| 0 <= j < i ==> x[j] == y[j],
    ensures
        lex_cmp_u8(x, y) == lex_cmp_u8(x.skip(i), y.skip(i)),
    decreases i,
{
    if i > 0 {
        assert forall|j: int| 0 <= j < i - 1 implies x.drop_first()[j] == y.drop_first()[j] by {
            assert(x.drop_first()[j] == x[j + 1]);
        }
        lemma_lex_u8_skip(x.drop_first(), y.drop_first(), i - 1);
        assert(x.drop_first().skip(i - 1) =~= x.skip(i));
        assert(y.drop_first().skip(i - 1) =~= y.skip(i));
    } else {
        assert(x.skip(0) =~= x);
        assert(y.skip(0) =~= y);
    }
}

pub proof fn lemma_lex_char_skip(x: Seq<char>, y: Seq<char>, i: int)
    requires
        0 <= i <= x.len(),
        i <= y.len(),
        forall|j: int| 0 <= j < i ==> x[j] == y[j],
    ensures
        lex_cmp_char(x, y) == lex_cmp_char(x.skip(i), y.skip(i)),
    decreases i,
{
    if i > 0 {
        assert forall|j: int| 0 <= j < i - 1 implies x.drop_first()[j] == y.drop_first()[j] by {
            assert(x.drop_first()[j] == x[j + 1]);
        }
        lemma_lex_char_skip(x.drop_first(), y.drop_first(), i - 1);
        assert(x.drop_first().skip(i - 1) =~= x.skip(i));
        assert(y.drop_first().skip(i - 1) =~= y.skip(i));
    } else {
        assert(x.skip(0) =~= x);
        assert(y.skip(0) =~= y);
    }
}

pub proof fn lemma_seq_cmp_skip(x: Seq<CborValue>, y: Seq<CborValue>, i: int)
    requires
        0 <= i <= x.len(),
        i <= y.len(),
        forall|j: int| 0 <= j < i ==> cmp_spec(#[trigger] x[j], y[j]) == 0,
    ensures
        seq_cmp_spec(x, y) == seq_cmp_spec(x.skip(i), y.skip(i)),
    decreases i,
{
    if i > 0 {
        assert(cmp_spec(x[0], y[0]) == 0);
        assert forall|j: int| 0 <= j < i - 1 implies cmp_spec(
            #[trigger] x.drop_first()[j],
            y.drop_first()[j],
        ) == 0 by {
            assert(x.drop_first()[j] == x[j + 1]);
            assert(y.drop_first()[j] == y[j + 1]);
            assert(cmp_spec(x[j + 1], y[j + 1]) == 0);
        }
        lemma_seq_cmp_skip(x.drop_first(), y.drop_first(), i - 1);
        assert(x.drop_first().skip(i - 1) =~= x.skip(i));
        assert(y.drop_first().skip(i - 1) =~= y.skip(i));
    } else {
        assert(x.skip(0) =~= x);
        assert(y.skip(0) =~= y);
    }
}

pub proof fn lemma_pairs_cmp_skip(
    x: Seq<(CborValue, CborValue)>,
    y: Seq<(CborValue, CborValue)>,
    i: int,
)
    requires
        0 <= i <= x.len(),
        i <= y.len(),
        forall|j: int| 0 <= j < i ==> cmp_spec(#[trigger] x[j].0, y[j].0) == 0 && cmp_spec(
            x[j].1,
            y[j].1,
        ) == 0,
    ensures
        pairs_cmp_spec(x, y) == pairs_cmp_spec(x.skip(i), y.skip(i)),
    decreases i,
{
    if i > 0 {
        assert(cmp_spec(x[0].0, y[0].0) == 0 && cmp_spec(x[0].1, y[0].1) == 0);
        assert forall|j: int| 0 <= j < i - 1 implies cmp_spec(
            #[trigger] x.drop_first()[j].0,
            y.drop_first()[j].0,
        ) == 0 && cmp_spec(x.drop_first()[j].1, y.drop_first()[j].1) == 0 by {
            assert(x.drop_first()[j] == x[j + 1]);
            assert(y.drop_first()[j] == y[j + 1]);
            assert(cmp_spec(x[j + 1].0, y[j + 1].0) == 0 && cmp_spec(x[j + 1].1, y[j + 1].1)
                == 0);
        }
        lemma_pairs_cmp_skip(x.drop_first(), y.drop_first(), i - 1);
        assert(x.drop_first().skip(i - 1) =~= x.skip(i));
        assert(y.drop_first().skip(i - 1) =~= y.skip(i));
    } else {
        assert(x.skip(0) =~= x);
        assert(y.skip(0) =~= y);
    }
}

/// Compare two byte strings lexicographically.
fn cmp_bytes(x: &Vec<u8>, y: &Vec<u8>) -> (r: i8)
    ensures
        r as int == lex_cmp_u8(x@, y@),
{
    let n = x.len();
    let m = y.len();
    let min = if n < m {
        n
    } else {
        m
    };
    let mut i: usize = 0;
    while i < min
        invariant
            min <= n == x@.len(),
            min <= m == y@.len(),
            min == if n < m { n } else { m },
            i <= min,
            forall|j: int| 0 <= j < i ==> x@[j] == y@[j],
        decreases min - i,
    {
        let cx = x[i];
        let cy = y[i];
        if cx < cy {
            proof {
                lemma_lex_u8_skip(x@, y@, i as int);
                assert(x@.skip(i as int)[0] == x@[i as int]);
                assert(y@.skip(i as int)[0] == y@[i as int]);
            }
            return -1;
        }
        if cx > cy {
            proof {
                lemma_lex_u8_skip(x@, y@, i as int);
                assert(x@.skip(i as int)[0] == x@[i as int]);
                assert(y@.skip(i as int)[0] == y@[i as int]);
            }
            return 1;
        }
        i = i + 1;
    }
    proof {
        lemma_lex_u8_skip(x@, y@, min as int);
        if n > min {
            assert(x@.skip(min as int)[0] == x@[min as int]);
        }
        if m > min {
            assert(y@.skip(min as int)[0] == y@[min as int]);
        }
    }
    if n == m {
        0
    } else if n < m {
        -1
    } else {
        1
    }
}

/// Compare two character strings lexicographically by code point.
fn cmp_text(x: &str, y: &str) -> (r: i8)
    ensures
        r as int == lex_cmp_char(x@, y@),
{
    let n = x.unicode_len();
    let m = y.unicode_len();
    let min = if n < m {
        n
    } else {
        m
    };
    let mut i: usize = 0;
    while i < min
        invariant
            min <= n == x@.len(),
            min <= m == y@.len(),
            min == if n < m { n } else { m },
            i <= min,
            forall|j: int| 0 <= j < i ==> x@[j] == y@[j],
        decreases min - i,
    {
        let cx = x.get_char(i) as u32;
        let cy = y.get_char(i) as u32;
        if cx < cy {
            proof {
                lemma_lex_char_skip(x@, y@, i as int);
                assert(x@.skip(i as int)[0] == x@[i as int]);
                assert(y@.skip(i as int)[0] == y@[i as int]);
            }
            return -1;
        }
        if cx > cy {
            proof {
                lemma_lex_char_skip(x@, y@, i as int);
                assert(x@.skip(i as int)[0] == x@[i as int]);
                assert(y@.skip(i as int)[0] == y@[i as int]);
            }
            return 1;
        }
        proof {
            assert(x@[i as int] as u32 == y@[i as int] as u32);
            vstd::utf8::char_u32_cast(x@[i as int], x@[i as int] as u32);
            vstd::utf8::char_u32_cast(y@[i as int], y@[i as int] as u32);
        }
        i = i + 1;
    }
    proof {
        lemma_lex_char_skip(x@, y@, min as int);
        if n > min {
            assert(x@.skip(min as int)[0] == x@[min as int]);
        }
        if m > min {
            assert(y@.skip(min as int)[0] == y@[min as int]);
        }
    }
    if n == m {
        0
    } else if n < m {
        -1
    } else {
        1
    }
}

/// Compare two binary64 values given as raw bits.
fn cmp_float_bits(x: u64, y: u64) -> (r: i8)
    ensures
        r as int == float_cmp_bits(x, y),
{
    let x_nan = ((x >> 52) & 0x7ff) == 0x7ff && (x & 0xf_ffff_ffff_ffff) != 0;
    let y_nan = ((y >> 52) & 0x7ff) == 0x7ff && (y & 0xf_ffff_ffff_ffff) != 0;
    if x_nan || y_nan {
        return 0;
    }
    let x_mag = (x & 0x7fff_ffff_ffff_ffff) as i128;
    let y_mag = (y & 0x7fff_ffff_ffff_ffff) as i128;
    let x_ord: i128 = if x_mag == 0 {
        0
    } else if (x >> 63) == 0 {
        x_mag + 1
    } else {
        -(x_mag + 1)
    };
    let y_ord: i128 = if y_mag == 0 {
        0
    } else if (y >> 63) == 0 {
        y_mag + 1
    } else {
        -(y_mag + 1)
    };
    if x_ord < y_ord {
        -1
    } else if x_ord > y_ord {
        1
    } else {
        0
    }
}

/// The CBOR major type of a value, as canonical ordering counts it.
pub fn major_type(v: &CborValue) -> (m: u8)
    requires
        cbor_wf(*v),
    ensures
        m as int == major_type_spec(*v),
{
    match v {
        CborValue::Integer(i) => {
            if i.to_i128() >= 0 {
                0
            } else {
                1
            }
        }
        CborValue::Bytes(_) => 2,
        CborValue::Text(_) => 3,
        CborValue::Array(_) => 4,
        CborValue::ItemMap(_) => 5,
        CborValue::Tag(_, _) => 6,
        _ => 7,
    }
}

/// Total comparison of two CBOR values; returns -1, 0 or 1 with the sign
/// of `cmp_spec`.
#[verifier::loop_isolation(false)]
pub fn cbor_cmp(a: &CborValue, b: &CborValue) -> (r: i8)
    requires
        cbor_wf(*a),
        cbor_wf(*b),
    ensures
        r as int == cmp_spec(*a, *b),
    decreases *a,
{
    let ma = major_type(a);
    let mb = major_type(b);
    if ma != mb {
        return if ma < mb {
            -1
        } else {
            1
        };
    }
    match (a, b) {
        (CborValue::Integer(x), CborValue::Integer(y)) => {
            let xv = x.to_i128();
            let yv = y.to_i128();
            if xv < yv {
                -1
            } else if xv > yv {
                1
            } else {
                0
            }
        }
        (CborValue::Bytes(x), CborValue::Bytes(y)) => cmp_bytes(x, y),
        (CborValue::Text(x), CborValue::Text(y)) => cmp_text(x.as_str(), y.as_str()),
        (CborValue::Array(x), CborValue::Array(y)) => {
            let n = x.len();
            let m = y.len();
            let min = if n < m {
                n
            } else {
                m
            };
            let mut i: usize = 0;
            while i < min
                invariant
                    i <= min,
                    forall|j: int| 0 <= j < i ==> cmp_spec(#[trigger] x@[j], y@[j]) == 0,
                decreases min - i,
            {
                proof {
                    assert(decreases_to!(*a => x@[i as int]));
                    assert(cbor_wf(x@[i as int]));
                    assert(cbor_wf(y@[i as int]));
                }
                let c = cbor_cmp(&x[i], &y[i]);
                if c != 0 {
                    proof {
                        lemma_seq_cmp_skip(x@, y@, i as int);
                        assert(x@.skip(i as int)[0] == x@[i as int]);
                        assert(y@.skip(i as int)[0] == y@[i as int]);
                    }
                    return c;
                }
                i = i + 1;
            }
            proof {
                lemma_seq_cmp_skip(x@, y@, min as int);
                if n > min {
                    assert(x@.skip(min as int)[0] == x@[min as int]);
                }
                if m > min {
                    assert(y@.skip(min as int)[0] == y@[min as int]);
                }
            }
            if n == m {
                0
            } else if n < m {
                -1
            } else {
                1
            }
        }
        (CborValue::ItemMap(x), CborValue::ItemMap(y)) => {
            let n = x.len();
            let m = y.len();
            if n < m {
                return -1;
            }
            if n > m {
                return 1;
            }
            let mut i: usize = 0;
            while i < n
                invariant
                    n == m,
                    i <= n,
                    forall|j: int| 0 <= j < i ==> cmp_spec(#[trigger] x@[j].0, y@[j].0) == 0
                        && cmp_spec(x@[j].1, y@[j].1) == 0,
                decreases n - i,
            {
                proof {
                    assert(decreases_to!(*a => x@[i as int]));
                    assert(decreases_to!(x@[i as int] => x@[i as int].0));
                    assert(decreases_to!(x@[i as int] => x@[i as int].1));
                    assert(cbor_wf(x@[i as int].0) && cbor_wf(x@[i as int].1));
                    assert(cbor_wf(y@[i as int].0) && cbor_wf(y@[i as int].1)) by {
                        assert(*b == CborValue::ItemMap(*y));
                        assert(cbor_wf(#[trigger] y@[i as int].0));
                        assert(cbor_wf(y@[i as int].1));
                    }
                }
                let ck = cbor_cmp(&x[i].0, &y[i].0);
                if ck != 0 {
                    proof {
                        lemma_pairs_cmp_skip(x@, y@, i as int);
                        assert(x@.skip(i as int)[0] == x@[i as int]);
                        assert(y@.skip(i as int)[0] == y@[i as int]);
                    }
                    return ck;
                }
                let cv = cbor_cmp(&x[i].1, &y[i].1);
                if cv != 0 {
                    proof {
                        lemma_pairs_cmp_skip(x@, y@, i as int);
                        assert(x@.skip(i as int)[0] == x@[i as int]);
                        assert(y@.skip(i as int)[0] == y@[i as int]);
                    }
                    return cv;
                }
                i = i + 1;
            }
            proof {
                lemma_pairs_cmp_skip(x@, y@, n as int);
            }
            0
        }
        (CborValue::Tag(i, x), CborValue::Tag(j, y)) => {
            if *i < *j {
                -1
            } else if *i > *j {
                1
            } else {
                cbor_cmp(x, y)
            }
        }
        (CborValue::Float { bits: x, .. }, CborValue::Float { bits: y, .. }) => cmp_float_bits(
            *x,
            *y,
        ),
        _ => {
            let ra: u8 = match a {
                CborValue::Bool(bb) => if *bb {
                    21
                } else {
                    20
                },
                CborValue::Null => 22,
                _ => 23,
            };
            let rb: u8 = match b {
                CborValue::Bool(bb) => if *bb {
                    21
                } else {
                    20
                },
                CborValue::Null => 22,
                _ => 23,
            };
            if ra < rb {
                -1
            } else if ra > rb {
                1
            } else {
                0
            }
        }
    }
}

/// Equality of two CBOR values, defined as the comparison returning 0.
pub fn cbor_eq(a: &CborValue, b: &CborValue) -> (r: bool)
    requires
        cbor_wf(*a),
        cbor_wf(*b),
    ensures
        r == (cmp_spec(*a, *b) == 0),
{
    cbor_cmp(a, b) == 0
}


/// The mathematical shape of a CBOR value: the same tree over
/// mathematical sequences and integers, used by contracts to speak of a
/// value independently of its heap representation.
pub enum CborModel {
    Null,
    Bool { b: bool },
    Int { i: int },
    Float { bits: u64, text: Seq<char> },
    Bytes { b: Seq<u8> },
    Text { t: Seq<char> },
    Array { elems: Seq<CborModel> },
    ItemMap { entries: Seq<(CborModel, CborModel)> },
    Tagged { id: u64, inner: Box<CborModel> },
}

/// The model of a CBOR value.
pub open spec fn model_of(v: CborValue) -> CborModel
    decreases v,
{
    match v {
        CborValue::Null => CborModel::Null,
        CborValue::Bool(b) => CborModel::Bool { b },
        CborValue::Integer(i) => CborModel::Int { i: i.value() },
        CborValue::Float { bits, text } => CborModel::Float { bits, text: text@ },
        CborValue::Bytes(b) => CborModel::Bytes { b: b@ },
        CborValue::Text(s) => CborModel::Text { t: s@ },
        CborValue::Array(elems) => CborModel::Array { elems: models_of(elems@) },
        CborValue::ItemMap(entries) => CborModel::ItemMap {
            entries: model_pairs_of(entries@),
        },
        CborValue::Tag(id, inner) => CborModel::Tagged {
            id,
            inner: Box::new(model_of(*inner)),
        },
    }
}

/// The models of a sequence of values.
pub open spec fn models_of(s: Seq<CborValue>) -> Seq<CborModel>
    decreases s,
{
    if s.len() == 0 {
        Seq::empty()
    } else {
        seq![model_of(s[0])] + models_of(s.drop_first())
    }
}

/// The models of a sequence of map entries.
pub open spec fn model_pairs_of(s: Seq<(CborValue, CborValue)>) -> Seq<
    (CborModel, CborModel),
>
    decreases s,
{
    if s.len() == 0 {
        Seq::empty()
    } else {
        seq![(model_of(s[0].0), model_of(s[0].1))] + model_pairs_of(s.drop_first())
    }
}

pub proof fn lemma_models_pointwise(a: Seq<CborValue>, b: Seq<CborValue>)
    requires
        a.len() == b.len(),
        forall|k: int| 0 <= k < a.len() ==> model_of(#[trigger] a[k]) == model_of(b[k]),
    ensures
        models_of(a) == models_of(b),
    decreases a.len(),
{
    if a.len() > 0 {
        assert forall|k: int| 0 <= k < a.drop_first().len() implies model_of(
            #[trigger] a.drop_first()[k],
        ) == model_of(b.drop_first()[k]) by {
            assert(a.drop_first()[k] == a[k + 1]);
            assert(b.drop_first()[k] == b[k + 1]);
        }
        lemma_models_pointwise(a.drop_first(), b.drop_first());
    }
}

pub proof fn lemma_model_pairs_pointwise(
    a: Seq<(CborValue, CborValue)>,
    b: Seq<(CborValue, CborValue)>,
)
    requires
        a.len() == b.len(),
        forall|k: int| 0 <= k < a.len() ==> model_of(#[trigger] a[k].0) == model_of(b[k].0)
            && model_of(a[k].1) == model_of(b[k].1),
    ensures
        model_pairs_of(a) == model_pairs_of(b),
    decreases a.len(),
{
    if a.len() > 0 {
        assert forall|k: int| 0 <= k < a.drop_first().len() implies model_of(
            #[trigger] a.drop_first()[k].0,
        ) == model_of(b.drop_first()[k].0) && model_of(a.drop_first()[k].1) == model_of(
            b.drop_first()[k].1,
        ) by {
            assert(a.drop_first()[k] == a[k + 1]);
            assert(b.drop_first()[k] == b[k + 1]);
        }
        lemma_model_pairs_pointwise(a.drop_first(), b.drop_first());
    }
}


pub proof fn lemma_be_nat_split(s: Seq<u8>, k: int)
    requires
        0 <= k <= s.len(),
    ensures
        be_nat(s) == be_nat(s.subrange(0, k)) * pow256((s.len() - k) as nat) + be_nat(
            s.subrange(k, s.len() as int),
        ),
    decreases s.len() - k,
{
    if k == s.len() {
        assert(s.subrange(0, k) =~= s);
        assert(s.subrange(k, s.len() as int) =~= Seq::<u8>::empty());
        assert(pow256((s.len() - k) as nat) == 1);
        assert(be_nat(s.subrange(k, s.len() as int)) == 0);
        assert(be_nat(s.subrange(0, k)) * pow256((s.len() - k) as nat) == be_nat(s))
            by (nonlinear_arith)
            requires
                be_nat(s.subrange(0, k)) == be_nat(s),
                pow256((s.len() - k) as nat) == 1,
        ;
    } else {
        let s1 = s.drop_last();
        lemma_be_nat_split(s1, k);
        assert(s1.subrange(0, k) =~= s.subrange(0, k));
        assert(s.subrange(k, s.len() as int).drop_last() =~= s1.subrange(k, s1.len() as int));
        let hi = be_nat(s.subrange(0, k)) as int;
        let lo1 = be_nat(s1.subrange(k, s1.len() as int)) as int;
        let p1 = pow256((s1.len() - k) as nat) as int;
        let last = s.last() as int;
        assert(be_nat(s1) as int == hi * p1 + lo1);
        assert(be_nat(s) as int == (hi * p1 + lo1) * 256 + last) by (nonlinear_arith)
            requires
                be_nat(s) as int == (be_nat(s1) as int) * 256 + last,
                be_nat(s1) as int == hi * p1 + lo1,
        ;
        assert(be_nat(s.subrange(k, s.len() as int)) as int == lo1 * 256 + last);
        assert(pow256((s.len() - k) as nat) == 256 * pow256((s1.len() - k) as nat));
        assert((hi * p1 + lo1) * 256 + last == hi * (p1 * 256) + (lo1 * 256 + last))
            by (nonlinear_arith);
        assert(be_nat(s) as int == hi * (pow256((s.len() - k) as nat) as int) + be_nat(
            s.subrange(k, s.len() as int),
        ) as int);
        assert(hi * (pow256((s.len() - k) as nat) as int) == (be_nat(s.subrange(0, k))
            * pow256((s.len() - k) as nat)) as int) by (nonlinear_arith)
            requires
                hi == be_nat(s.subrange(0, k)) as int,
                hi >= 0,
                pow256((s.len() - k) as nat) >= 0,
        ;
        assert(be_nat(s) == be_nat(s.subrange(0, k)) * pow256((s.len() - k) as nat) + be_nat(
            s.subrange(k, s.len() as int),
        ));
    }
}

/// Law: the two buffer halves assemble the integer's two's-complement
/// image: the most significant half times 2^64 plus the least
/// significant half equals the value, shifted into `[0, 2^128)`. With
/// the contracts of `lower_bytes` and `upper_bytes` this pins both
/// halves for any constructed value.
pub proof fn lemma_bytes_carry_value(i: &CborInteger)
    requires
        i.inv(),
    ensures
        i.byte_view().len() == 16,
        be_nat(i.byte_view().subrange(0, 8)) * 0x1_0000_0000_0000_0000 + be_nat(
            i.byte_view().subrange(8, 16),
        ) == if i.value() >= 0 {
            i.value()
        } else {
            i.value() + 0x1_0000_0000_0000_0000_0000_0000_0000_0000
        },
{
    lemma_pow256_16();
    lemma_be_nat_bound(i.byte_view());
    lemma_be_nat_split(i.byte_view(), 8);
    assert(i.byte_view().subrange(8, i.byte_view().len() as int) =~= i.byte_view().subrange(
        8,
        16,
    ));
}

} // verus!\n