use vstd::prelude::*;

verus! {

/// The character for one decimal digit value.
pub open spec fn digit_char(d: int) -> char {
    ((48 + d) as u8) as char
}

/// The decimal digits of a natural number, most significant first, with no
/// leading zeros (a single `'0'` for zero).
pub open spec fn dec_digits(n: nat) -> Seq<char>
    decreases n,
{
    if n < 10 {
        seq![digit_char(n as int)]
    } else {
        dec_digits(n / 10) + seq![digit_char((n % 10) as int)]
    }
}

/// The canonical decimal text of an integer: a leading `'-'` for negative
/// values, then the digits.
pub open spec fn dec_str(v: int) -> Seq<char> {
    if v < 0 {
        seq!['-'] + dec_digits((-v) as nat)
    } else {
        dec_digits(v as nat)
    }
}

/// Relies on i64's `Display` through `ToString::to_string`: the canonical
/// decimal text, an optional minus sign followed by the digits without
/// leading zeros.
#[verifier::external_body]
pub(crate) fn int_text(i: i64) -> (r: String)
    ensures
        r@ == dec_str(i as int),
{
    i.to_string()
}

/// Relies on usize's `Display` through `ToString::to_string`: the canonical
/// decimal digits without sign or leading zeros.
#[verifier::external_body]
pub(crate) fn usize_text(i: usize) -> (r: String)
    ensures
        r@ == dec_digits(i as nat),
{
    i.to_string()
}

/// The text that the host renders for the floating-point value with the
/// given bit pattern; it depends on the bits alone.
pub uninterp spec fn f64_bits_text(bits: u64) -> Seq<char>;

/// Relies on f64's `Display` through `ToString::to_string`, applied to the
/// value rebuilt by `from_bits`: the result is a pure function of the bits.
#[verifier::external_body]
pub(crate) fn number_text(bits: u64) -> (r: String)
    ensures
        r@ == f64_bits_text(bits),
{
    rlua::Number::from_bits(bits).to_string()
}

/// The bit pattern of the floating-point value that the text parses to, or
/// `None` when it does not parse; it depends on the text alone.
pub uninterp spec fn parsed_f64_bits(s: Seq<char>) -> Option<u64>;

/// Relies on `str::parse` for f64: acceptance and the parsed value are a
/// pure function of the text.
#[verifier::external_body]
pub(crate) fn parse_number_bits(s: &str) -> (r: Option<u64>)
    ensures
        r == parsed_f64_bits(s@),
{
    match s.parse::<rlua::Number>() {
        Ok(x) => Some(x.to_bits()),
        Err(_) => None,
    }
}

/// The saturating cast to i64 of the floating-point value with the given
/// bit pattern; it depends on the bits alone.
pub uninterp spec fn f64_bits_as_i64(bits: u64) -> i64;

/// Relies on Rust's saturating float-to-integer cast, applied to the value
/// rebuilt by `from_bits`: the result is a pure function of the bits.
#[verifier::external_body]
pub(crate) fn number_bits_to_i64(bits: u64) -> (r: i64)
    ensures
        r == f64_bits_as_i64(bits),
{
    rlua::Number::from_bits(bits) as i64
}

/// The bit pattern of the floating-point value an i64 casts to; it depends
/// on the integer alone.
pub uninterp spec fn i64_as_f64_bits(i: i64) -> u64;

/// Relies on Rust's integer-to-float cast (round to nearest): the result is
/// a pure function of the integer.
#[verifier::external_body]
pub(crate) fn i64_to_number_bits(i: i64) -> (r: u64)
    ensures
        r == i64_as_f64_bits(i),
{
    (i as rlua::Number).to_bits()
}

/// Whether the floating-point value with this bit pattern is strictly
/// positive. In IEEE 754, the strictly positive values are exactly the bit
/// patterns from 1 (the smallest positive subnormal) through
/// 0x7FF0000000000000 (positive infinity): greater patterns with a clear
/// sign bit are NaNs, which compare false, and a set sign bit gives a
/// negative value or negative zero.
pub open spec fn num_bits_positive(bits: u64) -> bool {
    1 <= bits <= 0x7FF0000000000000
}

/// Decides `num_bits_positive` on the bit pattern.
pub fn number_bits_is_positive(bits: u64) -> (r: bool)
    ensures
        r == num_bits_positive(bits),
{
    1 <= bits && bits <= 0x7FF0000000000000
}


/// Whether the character is a decimal digit.
pub open spec fn is_digit_char(c: char) -> bool {
    48 <= c as u32 <= 57
}

/// Whether every character is a decimal digit.
pub open spec fn all_digits(s: Seq<char>) -> bool {
    forall|i: int| 0 <= i < s.len() ==> is_digit_char(#[trigger] s[i])
}

/// The value of a digit string read in base ten; characters beyond the
/// digits contribute their offset from `'0'`, so the function is total.
pub open spec fn digits_val(s: Seq<char>) -> int
    decreases s.len(),
{
    if s.len() == 0 {
        0
    } else {
        digits_val(s.drop_last()) * 10 + ((s.last() as u32) - 48)
    }
}

/// The standard textual parse of an i64: an optional sign, then at least
/// one decimal digit and nothing else, rejected when the value leaves the
/// i64 range.
pub open spec fn parse_i64_spec(s: Seq<char>) -> Option<i64> {
    let signed = s.len() > 0 && (s[0] == '-' || s[0] == '+');
    let neg = s.len() > 0 && s[0] == '-';
    let ds = if signed {
        s.subrange(1, s.len() as int)
    } else {
        s
    };
    if ds.len() == 0 || !all_digits(ds) {
        None
    } else {
        let v = if neg {
            -digits_val(ds)
        } else {
            digits_val(ds)
        };
        if i64::MIN <= v <= i64::MAX {
            Some(v as i64)
        } else {
            None
        }
    }
}

/// A digit string's value is never negative.
pub proof fn lemma_digits_val_nonneg(s: Seq<char>)
    requires
        all_digits(s),
    ensures
        digits_val(s) >= 0,
    decreases s.len(),
{
    if s.len() > 0 {
        assert(all_digits(s.drop_last())) by {
            assert forall|i: int| 0 <= i < s.len() - 1
                implies is_digit_char(#[trigger] s.drop_last()[i]) by {
                assert(s.drop_last()[i] == s[i]);
            }
        }
        lemma_digits_val_nonneg(s.drop_last());
        assert(is_digit_char(s.last()));
    }
}

/// A digit string's value is at least the value of any of its prefixes.
pub proof fn lemma_digits_val_prefix(s: Seq<char>, k: int)
    requires
        all_digits(s),
        0 <= k <= s.len(),
    ensures
        digits_val(s) >= digits_val(s.subrange(0, k)),
    decreases s.len(),
{
    if k == s.len() {
        assert(s.subrange(0, k) =~= s);
    } else {
        let head = s.drop_last();
        assert(all_digits(head)) by {
            assert forall|i: int| 0 <= i < head.len()
                implies is_digit_char(#[trigger] head[i]) by {
                assert(head[i] == s[i]);
            }
        }
        lemma_digits_val_prefix(head, k);
        assert(head.subrange(0, k) =~= s.subrange(0, k));
        lemma_digits_val_nonneg(head);
        assert(is_digit_char(s.last()));
        assert(digits_val(s) >= digits_val(head)) by {
            assert(digits_val(head) * 10 >= digits_val(head)) by (nonlinear_arith)
                requires digits_val(head) >= 0;
        }
    }
}

/// Parses an i64 from text exactly as the standard textual parse does.
pub fn parse_i64(s: &str) -> (r: Option<i64>)
    ensures
        r == parse_i64_spec(s@),
{
    let len = s.unicode_len();
    if len == 0 {
        return None;
    }
    let c0 = s.get_char(0);
    let neg = c0 == '-';
    let signed = neg || c0 == '+';
    let start: usize = if signed {
        1
    } else {
        0
    };
    let ghost ds = if signed {
        s@.subrange(1, s@.len() as int)
    } else {
        s@
    };
    if start == len {
        proof {
            assert(ds.len() == 0);
        }
        return None;
    }
    let bound: u64 = if neg {
        9223372036854775808
    } else {
        9223372036854775807
    };
    let mut m: u64 = 0;
    let mut i: usize = start;
    while i < len
        invariant
            len == s@.len(),
            start <= i <= len,
            start < len,
            signed == (s@.len() > 0 && (s@[0] == '-' || s@[0] == '+')),
            neg == (s@.len() > 0 && s@[0] == '-'),
            start == (if signed { 1int } else { 0int }),
            ds == (if signed { s@.subrange(1, s@.len() as int) } else { s@ }),
            ds.len() == len - start,
            forall|j: int| 0 <= j < i - start ==> is_digit_char(#[trigger] ds[j]),
            forall|j: int| 0 <= j < i - start ==> ds[j] == s@[j + start],
            m as int == digits_val(ds.subrange(0, i - start)),
            bound == (if neg { 0x8000000000000000u64 } else { 0x7FFFFFFFFFFFFFFFu64 }),
            m <= bound,
        decreases len - i,
    {
        let c = s.get_char(i);
        let cu = c as u32;
        proof {
            assert(ds[i - start] == s@[i as int]);
        }
        if cu < 48 || cu > 57 {
            proof {
                assert(!is_digit_char(ds[i - start]));
                assert(!all_digits(ds));
            }
            return None;
        }
        let d: u64 = (cu - 48) as u64;
        proof {
            assert((m as u128) * 10 + (d as u128) <= 0xFFFFFFFFFFFFFFFFu128 * 10 + 9)
                by (nonlinear_arith)
                requires m <= 0xFFFFFFFFFFFFFFFFu64, d <= 9u64;
        }
        let wide: u128 = (m as u128) * 10 + (d as u128);
        proof {
            let pref = ds.subrange(0, i - start);
            let pref1 = ds.subrange(0, i + 1 - start);
            assert(pref1.drop_last() =~= pref);
            assert(pref1.last() == ds[i - start]);
            assert(digits_val(pref1) == digits_val(pref) * 10 + ((ds[i - start] as u32) - 48));
            assert(wide as int == digits_val(pref1));
        }
        if wide > (bound as u128) {
            proof {
                let pref1 = ds.subrange(0, i + 1 - start);
                if all_digits(ds) {
                    lemma_digits_val_prefix(ds, i + 1 - start);
                    assert(digits_val(ds) >= digits_val(pref1));
                    assert(digits_val(ds) > bound as int);
                    if neg {
                        assert(-digits_val(ds) < i64::MIN as int);
                    } else {
                        assert(digits_val(ds) > i64::MAX as int);
                    }
                }
            }
            return None;
        }
        m = wide as u64;
        i += 1;
    }
    proof {
        assert(ds.subrange(0, ds.len() as int) =~= ds);
        assert(all_digits(ds));
        assert(m as int == digits_val(ds));
        lemma_digits_val_nonneg(ds);
    }
    if neg {
        if m == 9223372036854775808 {
            Some(i64::MIN)
        } else {
            Some(-(m as i64))
        }
    } else {
        Some(m as i64)
    }
}

/// Every decimal rendering has at least one digit, and two or more for
/// values of ten and above.
pub proof fn lemma_dec_digits_len(n: nat)
    ensures
        dec_digits(n).len() >= 1,
        n >= 10 ==> dec_digits(n).len() >= 2,
    decreases n,
{
    if n >= 10 {
        lemma_dec_digits_len(n / 10);
    }
}

/// Distinct natural numbers render to distinct digit strings.
pub proof fn lemma_dec_digits_injective(a: nat, b: nat)
    requires
        a != b,
    ensures
        dec_digits(a) != dec_digits(b),
    decreases a + b,
{
    lemma_dec_digits_len(a);
    lemma_dec_digits_len(b);
    if a < 10 && b < 10 {
        assert(dec_digits(a)[0] == digit_char(a as int));
        assert(dec_digits(b)[0] == digit_char(b as int));
        assert(digit_char(a as int) != digit_char(b as int));
    } else if a < 10 {
        assert(dec_digits(a).len() != dec_digits(b).len());
    } else if b < 10 {
        assert(dec_digits(a).len() != dec_digits(b).len());
    } else {
        if dec_digits(a) == dec_digits(b) {
            let ta = dec_digits(a / 10);
            let tb = dec_digits(b / 10);
            assert((ta + seq![digit_char((a % 10) as int)]).drop_last() =~= ta);
            assert((tb + seq![digit_char((b % 10) as int)]).drop_last() =~= tb);
            assert(ta == tb);
            assert((ta + seq![digit_char((a % 10) as int)]).last()
                == digit_char((a % 10) as int));
            assert(digit_char((a % 10) as int) == digit_char((b % 10) as int));
            assert(a % 10 == b % 10);
            if a / 10 == b / 10 {
                assert(a == (a / 10) * 10 + a % 10);
                assert(b == (b / 10) * 10 + b % 10);
                assert(false);
            } else {
                assert(a / 10 < a) by (nonlinear_arith)
                    requires a >= 10nat;
                assert(b / 10 < b) by (nonlinear_arith)
                    requires b >= 10nat;
                lemma_dec_digits_injective(a / 10, b / 10);
                assert(false);
            }
        }
    }
}

} // verus!
