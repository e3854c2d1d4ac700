//! Decimal rendering and parsing on byte strings.
//!
//! Motion parameters circulate through the crate as integers in hundredths,
//! and are rendered with exactly two decimal places; configuration values
//! are plain integers. Both directions (rendering and parsing) are defined
//! here, together with the lemmas that make them inverse to each other.

use vstd::math::abs;
use vstd::prelude::*;

verus! {

/// ASCII `0`.
pub const B0: u8 = 0x30;

/// ASCII `9`.
pub const B9: u8 = 0x39;

/// ASCII `-`.
pub const BMINUS: u8 = 0x2D;

/// ASCII `.`.
pub const BDOT: u8 = 0x2E;

/// `b` is an ASCII decimal digit.
pub open spec fn is_dec_digit(b: u8) -> bool {
    B0 <= b && b <= B9
}

/// The digit character of `n`, for 0 ≤ n < 10.
pub open spec fn digit_of(n: int) -> u8 {
    (0x30 + n) as u8
}

/// Decimal digits of `n`, most significant first, without sign and without
/// leading zeros (a single `0` for n = 0).
pub open spec fn dec_digits(n: nat) -> Seq<u8>
    decreases n,
{
    if n < 10 {
        seq![digit_of(n as int)]
    } else {
        dec_digits(n / 10).push(digit_of((n % 10) as int))
    }
}

/// A non-empty, all-digit byte string.
pub open spec fn is_digits(s: Seq<u8>) -> bool {
    s.len() >= 1 && forall|i: int| 0 <= i < s.len() ==> is_dec_digit(#[trigger] s[i])
}

/// Value of a byte string read as a decimal numeral, most significant
/// digit first.
pub open spec fn dec_val(s: Seq<u8>) -> int
    decreases s.len(),
{
    if s.len() == 0 {
        0
    } else {
        dec_val(s.drop_last()) * 10 + (s.last() - B0)
    }
}

/// Signed decimal numeral of `v`.
pub open spec fn render_int_spec(v: int) -> Seq<u8> {
    if v < 0 {
        seq![BMINUS] + dec_digits(abs(v) as nat)
    } else {
        dec_digits(v as nat)
    }
}

/// Rendering of `v` hundredths with exactly two decimal places, as the
/// motion variables are substituted into action strings.
pub open spec fn render_hundredths_spec(v: int) -> Seq<u8> {
    let m = abs(v);
    let sign: Seq<u8> = if v < 0 {
        seq![BMINUS]
    } else {
        Seq::empty()
    };
    sign + dec_digits((m / 100) as nat) + seq![
        BDOT,
        digit_of(((m % 100) / 10) as int),
        digit_of((m % 10) as int),
    ]
}

/// Reading of a byte string as an optionally `-`-signed decimal numeral;
/// `None` on anything else (empty string, stray bytes, bare sign).
pub open spec fn parse_int_spec(s: Seq<u8>) -> Option<int> {
    if s.len() >= 1 && s[0] == BMINUS {
        if is_digits(s.skip(1)) {
            Option::Some(-dec_val(s.skip(1)))
        } else {
            Option::None
        }
    } else {
        if is_digits(s) {
            Option::Some(dec_val(s))
        } else {
            Option::None
        }
    }
}

/// The digits of a number are digits, and there is at least one.
pub proof fn lemma_dec_digits_wf(n: nat)
    ensures
        dec_digits(n).len() >= 1,
        forall|i: int| 0 <= i < dec_digits(n).len() ==> is_dec_digit(#[trigger] dec_digits(n)[i]),
    decreases n,
{
    if n >= 10 {
        lemma_dec_digits_wf(n / 10);
    }
}

/// Reading the digits of a number back gives the number.
pub proof fn lemma_dec_val_of_digits(n: nat)
    ensures
        dec_val(dec_digits(n)) == n,
    decreases n,
{
    if n < 10 {
        let s = dec_digits(n);
        assert(s =~= seq![digit_of(n as int)]);
        assert(s.drop_last() =~= Seq::<u8>::empty());
        assert(s.last() == digit_of(n as int));
        assert(dec_val(s) == dec_val(s.drop_last()) * 10 + (s.last() - B0));
        assert(dec_val(s.drop_last()) == 0);
    } else {
        lemma_dec_val_of_digits(n / 10);
        assert(dec_digits(n).drop_last() =~= dec_digits(n / 10));
        vstd::arithmetic::div_mod::lemma_fundamental_div_mod(n as int, 10);
    }
}

/// Reading a signed numeral back gives the value.
pub proof fn lemma_parse_of_render_int(v: int)
    ensures
        parse_int_spec(render_int_spec(v)) == Option::<int>::Some(v),
{
    if v < 0 {
        lemma_dec_digits_wf(abs(v) as nat);
        lemma_dec_val_of_digits(abs(v) as nat);
        assert(render_int_spec(v).skip(1) =~= dec_digits(abs(v) as nat));
    } else {
        lemma_dec_digits_wf(v as nat);
        lemma_dec_val_of_digits(v as nat);
        assert(render_int_spec(v)[0] != BMINUS);
    }
}

/// A digit string has a non-negative value.
pub proof fn lemma_dec_val_nonneg(s: Seq<u8>)
    requires
        forall|i: int| 0 <= i < s.len() ==> is_dec_digit(#[trigger] s[i]),
    ensures
        dec_val(s) >= 0,
    decreases s.len(),
{
    if s.len() > 0 {
        lemma_dec_val_nonneg(s.drop_last());
    }
}

/// Extending a digit string to the right can only grow its value.
pub proof fn lemma_dec_val_prefix_le(s: Seq<u8>, i: int)
    requires
        0 <= i <= s.len(),
        forall|j: int| 0 <= j < s.len() ==> is_dec_digit(#[trigger] s[j]),
    ensures
        dec_val(s.subrange(0, i)) <= dec_val(s),
    decreases s.len() - i,
{
    if i == s.len() {
        assert(s.subrange(0, i) =~= s);
    } else {
        let t = s.subrange(0, i + 1);
        assert(t.drop_last() =~= s.subrange(0, i));
        lemma_dec_val_nonneg(s.subrange(0, i));
        lemma_dec_val_prefix_le(s, i + 1);
    }
}

/// Decimal digits of a `u64`, most significant first.
pub fn u64_to_dec(n: u64) -> (r: Vec<u8>)
    ensures
        r@ == dec_digits(n as nat),
    decreases n,
{
    if n < 10 {
        let mut v: Vec<u8> = Vec::new();
        v.push(B0 + (n as u8));
        proof {
            assert(v@ =~= dec_digits(n as nat));
        }
        v
    } else {
        let mut v = u64_to_dec(n / 10);
        v.push(B0 + ((n % 10) as u8));
        proof {
            assert(v@ =~= dec_digits(n as nat));
        }
        v
    }
}

/// Magnitude of an `i64`, exact also for `i64::MIN`.
fn magnitude(v: i64) -> (m: u64)
    ensures
        m as int == abs(v as int),
{
    if v < 0 {
        (-(v as i128)) as u64
    } else {
        v as u64
    }
}

/// Signed decimal numeral of `v`.
pub fn i64_to_dec(v: i64) -> (r: Vec<u8>)
    ensures
        r@ == render_int_spec(v as int),
{
    let m = magnitude(v);
    let mut digits = u64_to_dec(m);
    if v < 0 {
        let mut out: Vec<u8> = Vec::new();
        out.push(BMINUS);
        out.append(&mut digits);
        proof {
            assert(out@ =~= render_int_spec(v as int));
        }
        out
    } else {
        digits
    }
}

/// Rendering of `v` hundredths with exactly two decimal places.
pub fn render_hundredths(v: i64) -> (r: Vec<u8>)
    ensures
        r@ == render_hundredths_spec(v as int),
{
    let m = magnitude(v);
    let mut out: Vec<u8> = Vec::new();
    if v < 0 {
        out.push(BMINUS);
    }
    let mut whole = u64_to_dec(m / 100);
    out.append(&mut whole);
    out.push(BDOT);
    out.push(B0 + (((m % 100) / 10) as u8));
    out.push(B0 + ((m % 10) as u8));
    proof {
        assert(out@ =~= render_hundredths_spec(v as int));
    }
    out
}

/// Reading of `s[start..end]` as an optionally signed decimal numeral that
/// fits an `i64`: exactly the successful cases of `parse_int_spec`, less
/// the values out of machine range.
pub fn parse_i64(s: &Vec<u8>, start: usize, end: usize) -> (r: Option<i64>)
    requires
        start <= end <= s@.len(),
    ensures
        (match r {
            Option::Some(v) => parse_int_spec(s@.subrange(start as int, end as int))
                == Option::Some(v as int),
            Option::None => (match parse_int_spec(s@.subrange(start as int, end as int)) {
                Option::Some(w) => w > i64::MAX || w < i64::MIN,
                Option::None => true,
            }),
        }),
{
    let ghost sub = s@.subrange(start as int, end as int);
    if start == end {
        return Option::None;
    }
    let neg = s[start] == BMINUS;
    let ds: usize = if neg {
        start + 1
    } else {
        start
    };
    let ghost dpart = s@.subrange(ds as int, end as int);
    proof {
        if neg {
            assert(dpart =~= sub.skip(1));
        } else {
            assert(dpart =~= sub);
        }
    }
    if ds == end {
        return Option::None;
    }
    let mut acc: u64 = 0;
    let mut i: usize = ds;
    while i < end
        invariant
            start <= ds <= i <= end <= s@.len(),
            sub == s@.subrange(start as int, end as int),
            dpart == s@.subrange(ds as int, end as int),
            neg == (s@[start as int] == BMINUS),
            ds == if neg {
                start + 1
            } else {
                start as int
            },
            ds < end,
            neg ==> dpart == sub.skip(1),
            !neg ==> dpart == sub,
            forall|j: int| ds <= j < i ==> is_dec_digit(#[trigger] s@[j]),
            acc as int == dec_val(s@.subrange(ds as int, i as int)),
        decreases end - i,
    {
        let b = s[i];
        if b < B0 || b > B9 {
            proof {
                assert(dpart[i - ds] == s@[i as int]);
                assert(!is_digits(dpart));
            }
            return Option::None;
        }
        let d: u64 = (b - B0) as u64;
        proof {
            assert(s@.subrange(ds as int, i + 1).drop_last() =~= s@.subrange(
                ds as int,
                i as int,
            ));
        }
        if acc > (u64::MAX - d) / 10 {
            proof {
                let m: int = u64::MAX as int;
                vstd::arithmetic::div_mod::lemma_fundamental_div_mod(m - d, 10);
                assert(acc as int * 10 + d > m);
                assert(forall|j: int| 0 <= j < dpart.len() && is_digits(dpart)
                    ==> is_dec_digit(#[trigger] dpart[j]));
                if is_digits(dpart) {
                    lemma_dec_val_prefix_le(dpart, i + 1 - ds);
                    assert(dpart.subrange(0, i + 1 - ds) =~= s@.subrange(ds as int, i + 1));
                    assert(dec_val(dpart) > u64::MAX);
                }
            }
            return Option::None;
        }
        acc = acc * 10 + d;
        i += 1;
    }
    proof {
        assert(dpart =~= s@.subrange(ds as int, end as int));
        assert(is_digits(dpart));
        assert(acc as int == dec_val(dpart));
    }
    if neg {
        if acc > 0x8000000000000000u64 {
            return Option::None;
        }
        let wide: i128 = -(acc as i128);
        Option::Some(wide as i64)
    } else {
        if acc > 0x7FFFFFFFFFFFFFFFu64 {
            return Option::None;
        }
        Option::Some(acc as i64)
    }
}

} // verus!
