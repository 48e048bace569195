//! Character-sequence utilities: moving between `str`/`String` and
//! `Vec<char>`, and rendering unsigned integers in decimal.

use vstd::prelude::*;

verus! {

use vstd::string::StrSliceExecFns;

/// The characters of `s`, in order.
pub fn str_to_chars(s: &str) -> (v: Vec<char>)
    ensures
        v@ == s@,
{
    let n = s.unicode_len();
    let mut v: Vec<char> = Vec::new();
    let mut i: usize = 0;
    while i < n
        invariant
            n == s@.len(),
            i <= n,
            v@ == s@.subrange(0, i as int),
        decreases n - i,
    {
        v.push(s.get_char(i));
        i = i + 1;
        proof {
            assert(v@ =~= s@.subrange(0, i as int));
        }
    }
    proof {
        assert(v@ =~= s@);
    }
    v
}

/// Relies on `String::from_iter` (via `FromIterator<char>`): collecting
/// a sequence of characters yields the string of exactly those characters.
#[verifier::external_body]
pub fn chars_to_string(v: Vec<char>) -> (s: String)
    ensures
        s@ == v@,
{
    String::from_iter(v)
}

/// The decimal digit character for `d`.
pub open spec fn digit_char(d: int) -> char {
    if d == 0 {
        '0'
    } else if d == 1 {
        '1'
    } else if d == 2 {
        '2'
    } else if d == 3 {
        '3'
    } else if d == 4 {
        '4'
    } else if d == 5 {
        '5'
    } else if d == 6 {
        '6'
    } else if d == 7 {
        '7'
    } else if d == 8 {
        '8'
    } else {
        '9'
    }
}

/// The usual decimal rendering of `n`: most significant digit first,
/// no leading zeros (except for `n == 0` itself).
pub open spec fn dec_digits(n: nat) -> Seq<char>
    decreases n,
{
    if n < 10 {
        seq![digit_char(n as int)]
    } else {
        dec_digits(n / 10) + seq![digit_char((n % 10) as int)]
    }
}

fn digit_of(d: usize) -> (c: char)
    requires
        d < 10,
    ensures
        c == digit_char(d as int),
{
    if d == 0 {
        '0'
    } else if d == 1 {
        '1'
    } else if d == 2 {
        '2'
    } else if d == 3 {
        '3'
    } else if d == 4 {
        '4'
    } else if d == 5 {
        '5'
    } else if d == 6 {
        '6'
    } else if d == 7 {
        '7'
    } else if d == 8 {
        '8'
    } else {
        '9'
    }
}

proof fn lemma_push_reverse(s: Seq<char>, d: char)
    ensures
        s.push(d).reverse() =~= seq![d] + s.reverse(),
{
}

/// The decimal rendering of `n`, as characters.
pub fn usize_to_chars(n: usize) -> (v: Vec<char>)
    ensures
        v@ == dec_digits(n as nat),
{
    let mut rev: Vec<char> = Vec::new();
    rev.push(digit_of(n % 10));
    let mut m: usize = n / 10;
    proof {
        if m > 0 {
            assert(dec_digits(n as nat) == dec_digits(m as nat) + rev@.reverse());
        } else {
            assert(dec_digits(n as nat) =~= rev@.reverse());
        }
    }
    while m > 0
        invariant
            if m > 0 {
                dec_digits(n as nat) == dec_digits(m as nat) + rev@.reverse()
            } else {
                dec_digits(n as nat) == rev@.reverse()
            },
        decreases m,
    {
        let ghost prev_rev = rev@;
        let ghost prev_m = m as nat;
        let d = digit_of(m % 10);
        rev.push(d);
        proof {
            lemma_push_reverse(prev_rev, d);
        }
        m = m / 10;
        proof {
            if m > 0 {
                assert(dec_digits(prev_m) == dec_digits(m as nat) + seq![digit_char((prev_m % 10) as int)]);
                assert(dec_digits(n as nat) =~= dec_digits(m as nat) + rev@.reverse());
            } else {
                assert(dec_digits(prev_m) =~= seq![digit_char((prev_m % 10) as int)]);
                assert(dec_digits(n as nat) =~= rev@.reverse());
            }
        }
    }
    let mut v: Vec<char> = Vec::new();
    let mut j: usize = rev.len();
    while j > 0
        invariant
            j <= rev.len(),
            v@.len() == rev@.len() - j,
            forall|i: int| 0 <= i < v@.len() ==> v@[i] == rev@[rev@.len() - 1 - i],
        decreases j,
    {
        j = j - 1;
        v.push(rev[j]);
    }
    proof {
        assert(v@ =~= rev@.reverse());
    }
    v
}

} // verus!
