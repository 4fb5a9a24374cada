use vstd::prelude::*;
use vstd::string::StringExecFns;
use vstd::string::StringSliceAdditionalSpecFns;
use vstd::string::StrSliceExecFns;
use vstd::utf8::encode_utf8_decode_utf8;

verus! {

/// The character for a single decimal digit.
pub open spec fn dec_digit_char(d: nat) -> char
    recommends
        d < 10,
{
    if d == 0 {
        '0'
    } else if d == 1 {
        '1'
    } else if d == 2 {
        '2'
    } else if d == 3 {
        '3'
    } else if d == 4 {
        '4'
    } else if d == 5 {
        '5'
    } else if d == 6 {
        '6'
    } else if d == 7 {
        '7'
    } else if d == 8 {
        '8'
    } else {
        '9'
    }
}

/// The decimal digit string of a non-negative integer, most significant digit first.
pub open spec fn dec_digits(n: nat) -> Seq<char>
    decreases n,
{
    if n < 10 {
        seq![dec_digit_char(n)]
    } else {
        dec_digits(n / 10) + seq![dec_digit_char(n % 10)]
    }
}

/// The decimal rendering of an integer: a minus sign for negative values,
/// followed by the digits of the magnitude.
pub open spec fn decimal_of(i: int) -> Seq<char> {
    if i < 0 {
        seq!['-'] + dec_digits((-i) as nat)
    } else {
        dec_digits(i as nat)
    }
}

fn push_decimal_digit(s: &mut String, d: u128)
    requires
        d < 10,
    ensures
        final(s)@ == old(s)@ + seq![dec_digit_char(d as nat)],
{
    proof {
        reveal_strlit("0");
        reveal_strlit("1");
        reveal_strlit("2");
        reveal_strlit("3");
        reveal_strlit("4");
        reveal_strlit("5");
        reveal_strlit("6");
        reveal_strlit("7");
        reveal_strlit("8");
        reveal_strlit("9");
    }
    if d == 0 {
        s.append("0");
    } else if d == 1 {
        s.append("1");
    } else if d == 2 {
        s.append("2");
    } else if d == 3 {
        s.append("3");
    } else if d == 4 {
        s.append("4");
    } else if d == 5 {
        s.append("5");
    } else if d == 6 {
        s.append("6");
    } else if d == 7 {
        s.append("7");
    } else if d == 8 {
        s.append("8");
    } else {
        s.append("9");
    }
}

pub fn append_decimal_u128(s: &mut String, n: u128)
    ensures
        final(s)@ == old(s)@ + dec_digits(n as nat),
    decreases n,
{
    if n < 10 {
        push_decimal_digit(s, n);
    } else {
        append_decimal_u128(s, n / 10);
        push_decimal_digit(s, n % 10);
    }
}

/// Render a non-negative 128-bit integer in decimal.
pub fn u128_to_decimal(n: u128) -> (s: String)
    ensures
        s@ == dec_digits(n as nat),
{
    let mut s = String::new();
    append_decimal_u128(&mut s, n);
    s
}

/// Render a signed 128-bit integer in decimal.
pub fn i128_to_decimal(v: i128) -> (s: String)
    ensures
        s@ == decimal_of(v as int),
{
    if v < 0 {
        let mag: u128 = ((-(v + 1)) as u128) + 1;
        assert(mag == -(v as int));
        proof {
            reveal_strlit("-");
        }
        let mut s = String::from_str("-");
        assert(s@ =~= seq!['-']);
        append_decimal_u128(&mut s, mag);
        s
    } else {
        u128_to_decimal(v as u128)
    }
}

/// Compare two string slices for character-for-character equality.
pub fn str_eq(a: &str, b: &str) -> (r: bool)
    ensures
        r == (a@ == b@),
{
    let ab = a.as_bytes();
    let bb = b.as_bytes();
    if ab.len() != bb.len() {
        assert(a@ != b@) by {
            if a@ == b@ {
                assert(a.spec_bytes() == b.spec_bytes());
            }
        }
        return false;
    }
    let n = ab.len();
    let mut i: usize = 0;
    while i < n
        invariant
            n == ab@.len() == bb@.len(),
            i <= n,
            ab@.subrange(0, i as int) =~= bb@.subrange(0, i as int),
            ab@ == a.spec_bytes(),
            bb@ == b.spec_bytes(),
        decreases n - i,
    {
        if ab[i] != bb[i] {
            assert(a@ != b@) by {
                if a@ == b@ {
                    assert(a.spec_bytes() == b.spec_bytes());
                }
            }
            return false;
        }
        assert(ab@.subrange(0, i + 1) =~= bb@.subrange(0, i + 1));
        i = i + 1;
    }
    proof {
        assert(ab@ =~= ab@.subrange(0, n as int));
        assert(bb@ =~= bb@.subrange(0, n as int));
        assert(ab@ == bb@);
        assert(a.spec_bytes() == b.spec_bytes());
        encode_utf8_decode_utf8(a@);
        encode_utf8_decode_utf8(b@);
    }
    true
}

/// Test whether `a` begins with `prefix`, character for character.
pub fn str_starts_with(a: &str, prefix: &str) -> (r: bool)
    ensures
        r == (a@.len() >= prefix@.len() && a@.subrange(0, prefix@.len() as int) == prefix@),
{
    let n = a.unicode_len();
    let m = prefix.unicode_len();
    if m > n {
        return false;
    }
    let mut i: usize = 0;
    while i < m
        invariant
            m <= n,
            n == a@.len(),
            m == prefix@.len(),
            i <= m,
            forall|j: int| 0 <= j < i ==> a@[j] == prefix@[j],
        decreases m - i,
    {
        let ca = a.get_char(i);
        let cb = prefix.get_char(i);
        if ca != cb {
            assert(a@.subrange(0, m as int)[i as int] != prefix@[i as int]);
            return false;
        }
        i = i + 1;
    }
    assert(a@.subrange(0, m as int) =~= prefix@);
    true
}


/// Relies on `String::from_utf8` of std: it succeeds exactly on valid
/// UTF-8 input and returns the string of the decoded characters, so
/// re-encoding those characters yields the input bytes again.
#[verifier::external_body]
pub fn string_from_utf8(bytes: Vec<u8>) -> (r: Option<String>)
    ensures
        match r {
            Some(s) => vstd::utf8::encode_utf8(s@) == bytes@ && vstd::utf8::valid_utf8(bytes@),
            None => !vstd::utf8::valid_utf8(bytes@),
        },
{
    String::from_utf8(bytes).ok()
}


/// Relies on `String::push` of std: it appends exactly the one character.
#[verifier::external_body]
pub fn push_char(out: &mut String, c: char)
    ensures
        final(out)@ == old(out)@ + seq![c],
{
    out.push(c);
}


/// Whether a character is a decimal digit.
pub open spec fn is_digit(c: char) -> bool {
    48 <= c as u32 <= 57
}

/// The value of a decimal digit character.
pub open spec fn digit_val(c: char) -> int {
    c as u32 - 48
}

/// Whether every character of a non-empty string is a decimal digit.
pub open spec fn all_digits(s: Seq<char>) -> bool {
    s.len() > 0 && forall|i: int| 0 <= i < s.len() ==> is_digit(#[trigger] s[i])
}

/// The integer denoted by a digit string, most significant digit first.
pub open spec fn digits_val(s: Seq<char>) -> int
    decreases s.len(),
{
    if s.len() == 0 {
        0
    } else {
        digits_val(s.drop_last()) * 10 + digit_val(s.last())
    }
}

/// What parsing a signed decimal string yields: an optional sign, at
/// least one digit, and a value within the 128-bit signed range.
pub open spec fn dec_parse(s: Seq<char>) -> Option<int> {
    if s.len() > 0 && s[0] == '-' {
        if all_digits(s.drop_first()) && -digits_val(s.drop_first()) >= -0x8000_0000_0000_0000_0000_0000_0000_0000 {
            Some(-digits_val(s.drop_first()))
        } else {
            None
        }
    } else if s.len() > 0 && s[0] == '+' {
        if all_digits(s.drop_first()) && digits_val(s.drop_first()) <= 0x7fff_ffff_ffff_ffff_ffff_ffff_ffff_ffff {
            Some(digits_val(s.drop_first()))
        } else {
            None
        }
    } else {
        if all_digits(s) && digits_val(s) <= 0x7fff_ffff_ffff_ffff_ffff_ffff_ffff_ffff {
            Some(digits_val(s))
        } else {
            None
        }
    }
}

pub proof fn lemma_digits_val_nonneg(s: Seq<char>)
    requires
        forall|i: int| 0 <= i < s.len() ==> is_digit(#[trigger] s[i]),
    ensures
        digits_val(s) >= 0,
    decreases s.len(),
{
    if s.len() > 0 {
        assert(forall|i: int| 0 <= i < s.drop_last().len() ==> is_digit(
            #[trigger] s.drop_last()[i],
        ));
        lemma_digits_val_nonneg(s.drop_last());
    }
}

pub proof fn lemma_digits_val_monotone(s: Seq<char>, i: int)
    requires
        0 <= i <= s.len(),
        forall|k: int| 0 <= k < s.len() ==> is_digit(#[trigger] s[k]),
    ensures
        digits_val(s) >= digits_val(s.subrange(0, i)),
    decreases s.len() - i,
{
    if i < s.len() {
        lemma_digits_val_monotone(s, i + 1);
        let p = s.subrange(0, i);
        let q = s.subrange(0, i + 1);
        assert(q.drop_last() =~= p);
        assert(digits_val(q) == digits_val(p) * 10 + digit_val(q.last()));
        assert(forall|k: int| 0 <= k < p.len() ==> is_digit(#[trigger] p[k]));
        lemma_digits_val_nonneg(p);
    } else {
        assert(s.subrange(0, i) =~= s);
    }
}

fn parse_digits(s: &str, start: usize, limit: u128) -> (r: Option<u128>)
    requires
        start < s@.len(),
        10 <= limit <= 0x8000_0000_0000_0000_0000_0000_0000_0000,
    ensures
        match r {
            Some(m) => all_digits(s@.skip(start as int)) && m == digits_val(
                s@.skip(start as int),
            ) && m <= limit,
            None => !(all_digits(s@.skip(start as int)) && digits_val(s@.skip(start as int))
                <= limit),
        },
{
    let n = s.unicode_len();
    let mut mag: u128 = 0;
    let mut i: usize = start;
    while i < n
        invariant
            start < n == s@.len(),
            start <= i <= n,
            10 <= limit <= 0x8000_0000_0000_0000_0000_0000_0000_0000,
            forall|k: int| start <= k < i ==> is_digit(#[trigger] s@[k]),
            mag == digits_val(s@.subrange(start as int, i as int)),
            mag <= limit,
        decreases n - i,
    {
        let c = s.get_char(i);
        let code = c as u32;
        if code < 48 || code > 57 {
            proof {
                assert(s@.skip(start as int)[i - start] == s@[i as int]);
                assert(!is_digit(s@[i as int]));
            }
            return None;
        }
        let d = (code - 48) as u128;
        proof {
            let whole = s@.skip(start as int);
            if mag > limit / 10 || mag * 10 + d > limit {
                if all_digits(whole) {
                    assert(forall|k: int| 0 <= k < whole.len() ==> is_digit(
                        #[trigger] whole[k],
                    ));
                    lemma_digits_val_monotone(whole, i + 1 - start);
                    let q = whole.subrange(0, i + 1 - start);
                    assert(q.drop_last() =~= whole.subrange(0, i - start));
                    assert(whole.subrange(0, i - start) =~= s@.subrange(start as int, i as int));
                    assert(q.last() == s@[i as int]);
                    assert(digits_val(q) == mag * 10 + d);
                    if mag > limit / 10 {
                        assert(mag * 10 + d > limit);
                    }
                    assert(digits_val(whole) >= digits_val(q));
                    assert(digits_val(whole) > limit);
                }
            }
        }
        if mag > limit / 10 {
            return None;
        }
        proof {
            assert(mag * 10 + d < 0x1_0000_0000_0000_0000_0000_0000_0000_0000)
                by (nonlinear_arith)
                requires
                    mag <= limit / 10,
                    d <= 9,
                    limit <= 0x8000_0000_0000_0000_0000_0000_0000_0000,
            ;
        }
        mag = mag * 10 + d;
        if mag > limit {
            return None;
        }
        proof {
            let p = s@.subrange(start as int, i as int);
            let q = s@.subrange(start as int, i + 1);
            assert(q.drop_last() =~= p);
            assert(q.last() == s@[i as int]);
            assert(digits_val(q) == digits_val(p) * 10 + digit_val(s@[i as int]));
        }
        i = i + 1;
    }
    proof {
        assert(s@.subrange(start as int, n as int) =~= s@.skip(start as int));
        assert(all_digits(s@.skip(start as int)));
    }
    Some(mag)
}

/// Parse a signed decimal string as a 128-bit integer: an optional sign
/// followed by decimal digits, rejected exactly when malformed or out of
/// range.
pub fn parse_i128(s: &str) -> (r: Option<i128>)
    ensures
        match r {
            Some(v) => dec_parse(s@) == Some(v as int),
            None => dec_parse(s@) is None,
        },
{
    let n = s.unicode_len();
    if n == 0 {
        return None;
    }
    let first = s.get_char(0);
    if first == '-' {
        if n == 1 {
            proof {
                assert(s@.drop_first().len() == 0);
            }
            return None;
        }
        let mag = parse_digits(s, 1, 0x8000_0000_0000_0000_0000_0000_0000_0000);
        proof {
            assert(s@.skip(1) =~= s@.drop_first());
        }
        match mag {
            Some(m) => {
                if m == 0x8000_0000_0000_0000_0000_0000_0000_0000 {
                    return Some(i128::MIN);
                }
                let v: i128 = -(m as i128);
                return Some(v);
            }
            None => {
                return None;
            }
        }
    }
    if first == '+' {
        if n == 1 {
            proof {
                assert(s@.drop_first().len() == 0);
            }
            return None;
        }
        let mag = parse_digits(s, 1, 0x7fff_ffff_ffff_ffff_ffff_ffff_ffff_ffff);
        proof {
            assert(s@.skip(1) =~= s@.drop_first());
        }
        match mag {
            Some(m) => {
                return Some(m as i128);
            }
            None => {
                return None;
            }
        }
    }
    let mag = parse_digits(s, 0, 0x7fff_ffff_ffff_ffff_ffff_ffff_ffff_ffff);
    proof {
        assert(s@.skip(0) =~= s@);
    }
    match mag {
        Some(m) => Some(m as i128),
        None => None,
    }
}

} // verus!\n