//! Numbers as IEEE 754 binary64 bit patterns.
//!
//! A runtime number is carried as the 64 bits of its binary64
//! representation. Negation, equality and ordering are pure functions of
//! those bits and are defined and verified here. Rounding arithmetic
//! (add, subtract, multiply, divide with round-to-nearest-even), decimal
//! to binary conversion, and decimal formatting are performed by
//! `rustc_apfloat`'s software implementation of binary64, behind trusted
//! wrappers.

use rustc_apfloat::Float;
use vstd::prelude::*;

verus! {

/// The sign bit of a binary64 pattern.
pub const SIGN_MASK: u64 = 0x8000_0000_0000_0000;

/// Everything but the sign bit: exponent and significand.
pub const MAG_MASK: u64 = 0x7FFF_FFFF_FFFF_FFFF;

/// The magnitude of positive infinity: exponent all ones, significand zero.
pub const INF_MAG: u64 = 0x7FF0_0000_0000_0000;

/// Whether `b` is a NaN pattern: exponent all ones and a nonzero
/// significand, i.e. a magnitude strictly above that of infinity.
pub open spec fn f_is_nan(b: u64) -> bool {
    (b & MAG_MASK) > INF_MAG
}

/// Whether `b` is one of the two zero patterns.
pub open spec fn f_is_zero(b: u64) -> bool {
    (b & MAG_MASK) == 0
}

/// Whether `b` is one of the two infinity patterns.
pub open spec fn f_is_inf(b: u64) -> bool {
    (b & MAG_MASK) == INF_MAG
}

/// Whether the sign bit of `b` is set.
pub open spec fn f_is_neg(b: u64) -> bool {
    (b & SIGN_MASK) != 0
}

/// The binary64 ordering key of a non-NaN pattern: its magnitude bits,
/// negated when the sign bit is set. For non-NaN patterns the numeric
/// order of binary64 values coincides with the integer order of this
/// key (magnitudes order values of equal sign, including subnormals and
/// infinities), and the two zero patterns share the key 0.
pub open spec fn f_key(b: u64) -> int {
    if f_is_neg(b) {
        -((b & MAG_MASK) as int)
    } else {
        (b & MAG_MASK) as int
    }
}

/// IEEE 754 equality of two binary64 patterns: false whenever either is
/// NaN; the two zeros are equal; otherwise bitwise equality.
pub open spec fn f_eq(a: u64, b: u64) -> bool {
    !f_is_nan(a) && !f_is_nan(b) && f_key(a) == f_key(b)
}

/// IEEE 754 `<` on two binary64 patterns: false whenever either is NaN.
pub open spec fn f_lt(a: u64, b: u64) -> bool {
    !f_is_nan(a) && !f_is_nan(b) && f_key(a) < f_key(b)
}

/// IEEE 754 `<=` on two binary64 patterns: false whenever either is NaN.
pub open spec fn f_le(a: u64, b: u64) -> bool {
    !f_is_nan(a) && !f_is_nan(b) && f_key(a) <= f_key(b)
}

/// IEEE 754 negation: flip the sign bit.
pub open spec fn f_neg(b: u64) -> u64 {
    b ^ SIGN_MASK
}

/// Whether `b` is a NaN pattern.
pub fn num_is_nan(b: u64) -> (r: bool)
    ensures
        r == f_is_nan(b),
{
    (b & MAG_MASK) > INF_MAG
}

/// The negation of `b`: the same number with the opposite sign.
pub fn num_neg(b: u64) -> (r: u64)
    ensures
        r == f_neg(b),
{
    b ^ SIGN_MASK
}

/// IEEE 754 equality on patterns `a` and `b`.
pub fn num_eq(a: u64, b: u64) -> (r: bool)
    ensures
        r == f_eq(a, b),
{
    if num_is_nan(a) || num_is_nan(b) {
        false
    } else {
        let ma = a & MAG_MASK;
        let mb = b & MAG_MASK;
        let na = (a & SIGN_MASK) != 0;
        let nb = (b & SIGN_MASK) != 0;
        if ma == 0 && mb == 0 {
            true
        } else {
            na == nb && ma == mb
        }
    }
}

/// IEEE 754 `<` on patterns `a` and `b`.
pub fn num_lt(a: u64, b: u64) -> (r: bool)
    ensures
        r == f_lt(a, b),
{
    if num_is_nan(a) || num_is_nan(b) {
        false
    } else {
        let ma = a & MAG_MASK;
        let mb = b & MAG_MASK;
        let na = (a & SIGN_MASK) != 0;
        let nb = (b & SIGN_MASK) != 0;
        if na {
            if nb {
                ma > mb
            } else {
                ma != 0 || mb != 0
            }
        } else {
            if nb {
                false
            } else {
                ma < mb
            }
        }
    }
}

/// IEEE 754 `<=` on patterns `a` and `b`.
pub fn num_le(a: u64, b: u64) -> (r: bool)
    ensures
        r == f_le(a, b),
{
    if num_is_nan(a) || num_is_nan(b) {
        false
    } else if num_eq(a, b) {
        true
    } else {
        num_lt(a, b)
    }
}

/// The binary64 sum of `a` and `b`, rounded to nearest, ties to even.
pub uninterp spec fn sum_bits(a: u64, b: u64) -> u64;

/// The binary64 difference of `a` and `b`, rounded to nearest, ties to even.
pub uninterp spec fn diff_bits(a: u64, b: u64) -> u64;

/// The binary64 product of `a` and `b`, rounded to nearest, ties to even.
pub uninterp spec fn prod_bits(a: u64, b: u64) -> u64;

/// The binary64 quotient of `a` and `b`, rounded to nearest, ties to even.
pub uninterp spec fn quot_bits(a: u64, b: u64) -> u64;

/// Relies on `rustc_apfloat::ieee::Double`'s `Add` (round to nearest,
/// ties to even): the IEEE 754 binary64 sum of the two operands.
#[verifier::external_body]
pub(crate) fn num_add(a: u64, b: u64) -> (r: u64)
    ensures
        r == sum_bits(a, b),
{
    let x = rustc_apfloat::ieee::Double::from_bits(a as u128);
    let y = rustc_apfloat::ieee::Double::from_bits(b as u128);
    (x + y).value.to_bits() as u64
}

/// Relies on `rustc_apfloat::ieee::Double`'s `Sub` (round to nearest,
/// ties to even): the IEEE 754 binary64 difference of the two operands.
#[verifier::external_body]
pub(crate) fn num_sub(a: u64, b: u64) -> (r: u64)
    ensures
        r == diff_bits(a, b),
{
    let x = rustc_apfloat::ieee::Double::from_bits(a as u128);
    let y = rustc_apfloat::ieee::Double::from_bits(b as u128);
    (x - y).value.to_bits() as u64
}

/// Relies on `rustc_apfloat::ieee::Double`'s `Mul` (round to nearest,
/// ties to even): the IEEE 754 binary64 product of the two operands.
#[verifier::external_body]
pub(crate) fn num_mul(a: u64, b: u64) -> (r: u64)
    ensures
        r == prod_bits(a, b),
{
    let x = rustc_apfloat::ieee::Double::from_bits(a as u128);
    let y = rustc_apfloat::ieee::Double::from_bits(b as u128);
    (x * y).value.to_bits() as u64
}

/// Relies on `rustc_apfloat::ieee::Double`'s `Div` (round to nearest,
/// ties to even): the IEEE 754 binary64 quotient of the two operands;
/// division by zero yields an infinity or NaN per IEEE 754.
#[verifier::external_body]
pub(crate) fn num_div(a: u64, b: u64) -> (r: u64)
    ensures
        r == quot_bits(a, b),
{
    let x = rustc_apfloat::ieee::Double::from_bits(a as u128);
    let y = rustc_apfloat::ieee::Double::from_bits(b as u128);
    (x / y).value.to_bits() as u64
}

/// Whether `c` is a decimal digit.
pub open spec fn is_digit(c: char) -> bool {
    '0' <= c && c <= '9'
}

/// Whether `c` is a decimal digit.
pub fn is_digit_char(c: char) -> (b: bool)
    ensures
        b == is_digit(c),
{
    '0' <= c && c <= '9'
}

/// The number of consecutive decimal digits in `s` from position `i` on.
pub open spec fn digit_run(s: Seq<char>, i: int) -> nat
    decreases s.len() - i,
    when 0 <= i <= s.len()
{
    if i < s.len() && is_digit(s[i]) {
        1 + digit_run(s, i + 1)
    } else {
        0
    }
}

/// A digit run is exactly the distance to the first non-digit.
pub proof fn lemma_digit_run_is(s: Seq<char>, i: int, n: int)
    requires
        0 <= i,
        0 <= n,
        i + n <= s.len(),
        forall|k: int| i <= k < i + n ==> is_digit(#[trigger] s[k]),
        i + n == s.len() || !is_digit(s[i + n]),
    ensures
        digit_run(s, i) == n,
    decreases n,
{
    if n > 0 {
        lemma_digit_run_is(s, i + 1, n - 1);
    }
}

/// The exponent tail of decimal text: `E`, a mandatory sign, and at
/// least one digit, running to the end.
pub open spec fn exp_tail(s: Seq<char>, j: int) -> bool {
    &&& 0 <= j
    &&& j + 2 < s.len()
    &&& s[j] == 'E'
    &&& (s[j + 1] == '+' || s[j + 1] == '-')
    &&& digit_run(s, j + 2) == s.len() - j - 2
}

/// Decimal text acceptable to binary64 conversion: digits, optionally a
/// dot followed by digits, optionally an exponent marker `E` with a
/// mandatory sign and digits.
pub open spec fn decimal_text(s: Seq<char>) -> bool {
    let d = digit_run(s, 0) as int;
    &&& d > 0
    &&& {
        ||| d == s.len()
        ||| (d < s.len() && s[d] == '.' && {
            let f = digit_run(s, d + 1) as int;
            &&& d + 1 <= s.len()
            &&& f > 0
            &&& (d + 1 + f == s.len() || exp_tail(s, d + 1 + f))
        })
        ||| exp_tail(s, d)
    }
}

/// The binary64 value of decimal text, rounded to nearest, ties to even.
pub uninterp spec fn parsed_number(s: Seq<char>) -> u64;

/// Relies on `rustc_apfloat::ieee::Double::from_str` (round to nearest,
/// ties to even): the nearest binary64 value of the decimal text. The
/// required shape rules out its error cases.
#[verifier::external_body]
pub(crate) fn num_from_text(s: &str) -> (r: u64)
    requires
        decimal_text(s@),
    ensures
        r == parsed_number(s@),
{
    match s.parse::<rustc_apfloat::ieee::Double>() {
        Ok(d) => d.to_bits() as u64,
        Err(_) => 0,
    }
}

/// The scientific rendering of a positive finite nonzero binary64
/// pattern with the given number of significant digits: the digits of
/// the correctly rounded decimal magnitude, laid out as
/// `d.dddE+x` / `d.dddE-x` (a single fractional `0` when one digit is
/// requested or all later digits are zero).
pub uninterp spec fn sci_text(b: u64, digits: usize) -> Seq<char>;

/// Relies on `rustc_apfloat::ieee::Double`'s `Display` with an explicit
/// precision and width 0: scientific notation with `digits` significant
/// digits, which is decimal text in the shape accepted above.
#[verifier::external_body]
pub(crate) fn num_sci_text(b: u64, digits: usize) -> (r: String)
    requires
        1 <= digits <= 17,
        !f_is_nan(b),
        !f_is_inf(b),
        !f_is_zero(b),
        !f_is_neg(b),
    ensures
        r@ == sci_text(b, digits),
        decimal_text(r@),
{
    let d = rustc_apfloat::ieee::Double::from_bits(b as u128);
    format!("{:w$.p$}", d, w = 0usize, p = digits)
}

/// A sequence of `n` zero digits.
pub open spec fn zeros(n: nat) -> Seq<char> {
    Seq::new(n, |i: int| '0')
}

/// The numeric value of a digit character; other characters count as 0.
pub open spec fn digit_val(c: char) -> int {
    if c == '1' {
        1
    } else if c == '2' {
        2
    } else if c == '3' {
        3
    } else if c == '4' {
        4
    } else if c == '5' {
        5
    } else if c == '6' {
        6
    } else if c == '7' {
        7
    } else if c == '8' {
        8
    } else if c == '9' {
        9
    } else {
        0
    }
}

/// The value of the digits of `s` from position `i` on, folded left onto
/// `acc` and capped at 100000 so that layout stays bounded whatever the
/// text holds. Binary64 decimal exponents have at most four digits, so
/// the cap is never reached on real renderings.
pub open spec fn dec_acc(s: Seq<char>, i: int, acc: int) -> int
    decreases s.len() - i,
    when 0 <= i <= s.len()
{
    if i >= s.len() {
        acc
    } else {
        dec_acc(s, i + 1, if acc >= 100000 { 100000 } else { acc * 10 + digit_val(s[i]) })
    }
}

/// The first position of `c` in `s` at or after `i`, or `s.len()`.
pub open spec fn find_from(s: Seq<char>, c: char, i: int) -> int
    decreases s.len() - i,
    when 0 <= i <= s.len()
{
    if i >= s.len() {
        i
    } else if s[i] == c {
        i
    } else {
        find_from(s, c, i + 1)
    }
}

/// Positional layout of scientific decimal text `d[.ddd]E<sign>x`:
/// the same number written without an exponent, as `Display` for the
/// native 64-bit float writes it. Text without an exponent marker is
/// returned unchanged; a lone `0` fraction is the formatter's filler
/// digit, not a significant digit.
pub open spec fn sci_to_positional(s: Seq<char>) -> Seq<char> {
    let e = find_from(s, 'E', 0);
    if e == s.len() {
        s
    } else {
        let mant = s.take(e);
        let dot = find_from(mant, '.', 0);
        let head = mant.take(dot);
        let frac0 = if dot == mant.len() {
            Seq::<char>::empty()
        } else {
            mant.skip(dot + 1)
        };
        let frac = if frac0 == seq!['0'] {
            Seq::<char>::empty()
        } else {
            frac0
        };
        let digits = head + frac;
        let exp_s = s.skip(e + 1);
        let neg = exp_s.len() > 0 && exp_s[0] == '-';
        let mag_digits = if exp_s.len() > 0 && (exp_s[0] == '+' || exp_s[0] == '-') {
            exp_s.skip(1)
        } else {
            exp_s
        };
        let exp = if neg {
            -dec_acc(mag_digits, 0, 0)
        } else {
            dec_acc(mag_digits, 0, 0)
        };
        let n = digits.len() as int;
        if n == 0 {
            seq!['0']
        } else if exp >= n - 1 {
            digits + zeros((exp - (n - 1)) as nat)
        } else if exp >= 0 {
            digits.take(exp + 1) + seq!['.'] + digits.skip(exp + 1)
        } else {
            seq!['0', '.'] + zeros((-exp - 1) as nat) + digits
        }
    }
}

/// The scientific rendering of positive finite nonzero `b` with the
/// fewest significant digits (at most 17) that convert back to exactly
/// `b`; with 17 digits the conversion always comes back.
pub open spec fn pick_sci(b: u64, k: int) -> Seq<char>
    decreases 17 - k,
    when 1 <= k <= 17
{
    if k >= 17 {
        sci_text(b, 17usize)
    } else if parsed_number(sci_text(b, k as usize)) == b {
        sci_text(b, k as usize)
    } else {
        pick_sci(b, k + 1)
    }
}

/// The display text of a positive pattern: `0`, `inf`, or the shortest
/// faithful decimal laid out positionally.
pub open spec fn pos_text(m: u64) -> Seq<char> {
    if m == 0 {
        seq!['0']
    } else if m == INF_MAG {
        seq!['i', 'n', 'f']
    } else {
        sci_to_positional(pick_sci(m, 1))
    }
}

/// The display text of a binary64 pattern: `NaN` for NaN patterns, a
/// leading `-` for negative ones, and the shortest decimal that reads
/// back to the same bits for finite values, written without an
/// exponent, as the native float `Display` writes it.
pub open spec fn num_text(b: u64) -> Seq<char> {
    if f_is_nan(b) {
        seq!['N', 'a', 'N']
    } else if f_is_neg(b) {
        seq!['-'] + pos_text(b & MAG_MASK)
    } else {
        pos_text(b)
    }
}

fn push_zeros(out: &mut Vec<char>, n: usize)
    ensures
        final(out)@ == old(out)@ + zeros(n as nat),
{
    let mut i: usize = 0;
    while i < n
        invariant
            i <= n,
            out@ == old(out)@ + zeros(i as nat),
        decreases n - i,
    {
        out.push('0');
        i = i + 1;
        proof {
            assert(old(out)@ + zeros((i - 1) as nat) + seq!['0'] =~= old(out)@ + zeros(i as nat));
        }
    }
}

fn find_char(v: &Vec<char>, c: char) -> (r: usize)
    ensures
        r == find_from(v@, c, 0),
        r <= v@.len(),
        r < v@.len() ==> v@[r as int] == c,
{
    let mut j: usize = 0;
    while j < v.len()
        invariant
            j <= v@.len(),
            find_from(v@, c, 0) == find_from(v@, c, j as int),
            forall|i: int| 0 <= i < j ==> v@[i] != c,
        decreases v@.len() - j,
    {
        if v[j] == c {
            return j;
        }
        j = j + 1;
    }
    j
}

/// Lay scientific decimal text out positionally.
#[verifier::rlimit(80)]
fn sci_positional_chars(v: &Vec<char>) -> (out: Vec<char>)
    ensures
        out@ == sci_to_positional(v@),
{
    let e = find_char(v, 'E');
    if e == v.len() {
        let mut out: Vec<char> = Vec::new();
        out.extend_from_slice(v.as_slice());
        proof {
            assert(out@ =~= sci_to_positional(v@));
        }
        return out;
    }
    // Mantissa digits: the head digit, then the fraction unless it is
    // the single filler `0`.
    let mut mant: Vec<char> = Vec::new();
    let mut j: usize = 0;
    while j < e
        invariant
            j <= e,
            e <= v@.len(),
            mant@ == v@.take(e as int).take(j as int),
        decreases e - j,
    {
        mant.push(v[j]);
        j = j + 1;
        proof {
            assert(v@.take(e as int).take((j - 1) as int).push(v@[j - 1]) =~= v@.take(e as int).take(
                j as int,
            ));
        }
    }
    proof {
        assert(mant@ =~= v@.take(e as int));
    }
    let dot = find_char(&mant, '.');
    let mut digits: Vec<char> = Vec::new();
    let mut j: usize = 0;
    while j < dot
        invariant
            j <= dot,
            dot <= mant@.len(),
            digits@ == mant@.take(dot as int).take(j as int),
        decreases dot - j,
    {
        digits.push(mant[j]);
        j = j + 1;
        proof {
            assert(mant@.take(dot as int).take((j - 1) as int).push(mant@[j - 1])
                =~= mant@.take(dot as int).take(j as int));
        }
    }
    proof {
        assert(digits@ =~= mant@.take(dot as int));
    }
    let ghost head = mant@.take(dot as int);
    let ghost frac0 = if dot == mant.len() {
        Seq::<char>::empty()
    } else {
        mant@.skip(dot as int + 1)
    };
    let single_filler = mant.len() >= 2 && dot == mant.len() - 2 && mant[mant.len() - 1] == '0';
    proof {
        if single_filler {
            assert(frac0 =~= seq!['0']);
        } else if dot < mant.len() && frac0 == seq!['0'] {
            assert(frac0.len() == 1);
            assert(frac0[0] == mant@[dot as int + 1]);
            assert(false);
        }
    }
    if !single_filler && dot < mant.len() {
        let mut j: usize = dot + 1;
        while j < mant.len()
            invariant
                dot + 1 <= j <= mant@.len(),
                head == mant@.take(dot as int),
                digits@ == head + mant@.skip(dot as int + 1).take(j - dot - 1),
            decreases mant@.len() - j,
        {
            digits.push(mant[j]);
            j = j + 1;
            proof {
                assert((head + mant@.skip(dot as int + 1).take(j - 1 - dot - 1)).push(
                    mant@[j - 1],
                ) =~= head + mant@.skip(dot as int + 1).take(j - dot - 1));
            }
        }
        proof {
            assert(digits@ =~= head + frac0);
        }
    }
    proof {
        let frac = if frac0 == seq!['0'] {
            Seq::<char>::empty()
        } else {
            frac0
        };
        assert(digits@ =~= head + frac);
    }
    // Exponent: sign, then capped digit fold.
    let exp_start = e + 1;
    let neg = exp_start < v.len() && v[exp_start] == '-';
    let signed = exp_start < v.len() && (v[exp_start] == '+' || v[exp_start] == '-');
    let mag_start = if signed {
        exp_start + 1
    } else {
        exp_start
    };
    let ghost exp_s = v@.skip(e as int + 1);
    let ghost mag_digits = if signed {
        exp_s.skip(1)
    } else {
        exp_s
    };
    proof {
        assert(mag_digits =~= v@.skip(mag_start as int));
    }
    let mut mag: u64 = 0;
    let mut j: usize = mag_start;
    while j < v.len()
        invariant
            mag_start <= j <= v@.len(),
            mag <= 1000009,
            mag_digits == v@.skip(mag_start as int),
            dec_acc(mag_digits, 0, 0) == dec_acc(mag_digits, j - mag_start, mag as int),
        decreases v@.len() - j,
    {
        let c = v[j];
        let d: u64 = if c == '1' {
            1
        } else if c == '2' {
            2
        } else if c == '3' {
            3
        } else if c == '4' {
            4
        } else if c == '5' {
            5
        } else if c == '6' {
            6
        } else if c == '7' {
            7
        } else if c == '8' {
            8
        } else if c == '9' {
            9
        } else {
            0
        };
        proof {
            assert(mag_digits[j - mag_start] == v@[j as int]);
        }
        mag = if mag >= 100000 {
            100000
        } else {
            mag * 10 + d
        };
        j = j + 1;
    }
    proof {
        assert(dec_acc(mag_digits, 0, 0) == mag as int);
    }
    let n = digits.len();
    let eff_neg = neg && mag > 0;
    let mut out: Vec<char> = Vec::new();
    if n == 0 {
        out.push('0');
        proof {
            assert(out@ =~= sci_to_positional(v@));
        }
        out
    } else if !eff_neg && mag >= (n - 1) as u64 {
        out.extend_from_slice(digits.as_slice());
        push_zeros(&mut out, (mag - (n - 1) as u64) as usize);
        proof {
            assert(out@ =~= sci_to_positional(v@));
        }
        out
    } else if !eff_neg {
        // 0 <= mag < n - 1
        let cut = (mag + 1) as usize;
        let mut j: usize = 0;
        while j < cut
            invariant
                j <= cut,
                cut <= digits@.len(),
                out@ == digits@.take(cut as int).take(j as int),
            decreases cut - j,
        {
            out.push(digits[j]);
            j = j + 1;
            proof {
                assert(digits@.take(cut as int).take((j - 1) as int).push(digits@[j - 1])
                    =~= digits@.take(cut as int).take(j as int));
            }
        }
        proof {
            assert(out@ =~= digits@.take(cut as int));
        }
        out.push('.');
        let ghost before = out@;
        let mut j: usize = cut;
        while j < digits.len()
            invariant
                cut <= j <= digits@.len(),
                out@ == before + digits@.skip(cut as int).take(j - cut),
            decreases digits@.len() - j,
        {
            out.push(digits[j]);
            j = j + 1;
            proof {
                assert((before + digits@.skip(cut as int).take(j - 1 - cut)).push(digits@[j - 1])
                    =~= before + digits@.skip(cut as int).take(j - cut));
            }
        }
        proof {
            assert(out@ =~= digits@.take(cut as int) + seq!['.'] + digits@.skip(cut as int));
            assert(out@ =~= sci_to_positional(v@));
        }
        out
    } else {
        out.push('0');
        out.push('.');
        proof {
            assert(out@ =~= seq!['0', '.']);
        }
        push_zeros(&mut out, (mag - 1) as usize);
        out.extend_from_slice(digits.as_slice());
        proof {
            assert(out@ =~= sci_to_positional(v@));
        }
        out
    }
}

/// The display text of pattern `b`, as characters.
pub fn render_number_chars(b: u64) -> (out: Vec<char>)
    ensures
        out@ == num_text(b),
{
    let mut out: Vec<char> = Vec::new();
    if num_is_nan(b) {
        out.push('N');
        out.push('a');
        out.push('N');
        proof {
            assert(out@ =~= num_text(b));
        }
        return out;
    }
    let m = b & MAG_MASK;
    proof {
        assert((b & 0x7FFF_FFFF_FFFF_FFFFu64) & 0x7FFF_FFFF_FFFF_FFFFu64 == b
            & 0x7FFF_FFFF_FFFF_FFFFu64) by (bit_vector);
        assert((b & 0x7FFF_FFFF_FFFF_FFFFu64) & 0x8000_0000_0000_0000u64 == 0) by (bit_vector);
        assert(b & 0x8000_0000_0000_0000u64 == 0 ==> b & 0x7FFF_FFFF_FFFF_FFFFu64 == b)
            by (bit_vector);
    }
    if (b & SIGN_MASK) != 0 {
        out.push('-');
    }
    let ghost sign_part = out@;
    if m == 0 {
        out.push('0');
        proof {
            assert(out@ =~= sign_part + pos_text(m));
        }
    } else if m == INF_MAG {
        out.push('i');
        out.push('n');
        out.push('f');
        proof {
            assert(out@ =~= sign_part + pos_text(m));
        }
    } else {
        let mut k: usize = 1;
        let mut s = num_sci_text(m, k);
        while k < 17 && num_from_text(s.as_str()) != m
            invariant
                1 <= k <= 17,
                !f_is_nan(m) && !f_is_inf(m) && !f_is_zero(m) && !f_is_neg(m),
                s@ == sci_text(m, k),
                decimal_text(s@),
                pick_sci(m, 1) == pick_sci(m, k as int),
            decreases 17 - k,
        {
            k = k + 1;
            s = num_sci_text(m, k);
        }
        let chars = crate::text::str_to_chars(s.as_str());
        proof {
            assert(s@ == pick_sci(m, k as int));
        }
        let laid = sci_positional_chars(&chars);
        out.extend_from_slice(laid.as_slice());
        proof {
            assert(out@ =~= sign_part + pos_text(m));
        }
    }
    proof {
        assert(out@ =~= num_text(b));
    }
    out
}

} // verus!
