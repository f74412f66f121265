//! Non-negative base-10 integers: the value of a digit string, and verified
//! parsing into `u64`/`u16` (no sign, no separators, leading zeros accepted).

use vstd::prelude::*;
use crate::chars::is_digit;

verus! {

/// Every character of `s` is a decimal digit.
pub open spec fn all_digits(s: Seq<char>) -> bool {
    forall|i: int| 0 <= i < s.len() ==> is_digit(#[trigger] s[i])
}

/// Numeric value of one digit character.
pub open spec fn digit_val(c: char) -> nat
    recommends
        is_digit(c),
{
    (c as int - '0' as int) as nat
}

/// Value of a digit string, most significant digit first.
pub open spec fn digits_value(s: Seq<char>) -> nat
    decreases s.len(),
{
    if s.len() == 0 {
        0
    } else {
        digits_value(s.drop_last()) * 10 + digit_val(s.last())
    }
}

/// A string decodes as a `u64` segment: non-empty, all digits, in range.
pub open spec fn seg_ok(s: Seq<char>) -> bool {
    s.len() > 0 && all_digits(s) && digits_value(s) <= u64::MAX
}

/// Extending a digit string to the right never decreases its value.
pub proof fn lemma_digits_value_extend(s: Seq<char>, i: int, j: int)
    requires
        0 <= i <= j <= s.len(),
    ensures
        digits_value(s.subrange(0, j)) >= digits_value(s.subrange(0, i)),
    decreases j - i,
{
    if i < j {
        lemma_digits_value_extend(s, i, j - 1);
        assert(s.subrange(0, j).drop_last() =~= s.subrange(0, j - 1));
        assert(digits_value(s.subrange(0, j)) == digits_value(s.subrange(0, j - 1)) * 10
            + digit_val(s.subrange(0, j).last()));
    }
}

/// Parses a digit string as a `u64`.  Returns `None` exactly when the string
/// is empty, holds a non-digit, or its value does not fit in 64 bits.
pub fn parse_u64(s: &str) -> (r: Option<u64>)
    ensures
        r is Some <==> seg_ok(s@),
        r is Some ==> r->0 as nat == digits_value(s@),
{
    let n = s.unicode_len();
    if n == 0 {
        return None;
    }
    let mut i: usize = 0;
    let mut acc: u64 = 0;
    while i < n
        invariant
            0 <= i <= n,
            n == s@.len(),
            all_digits(s@.subrange(0, i as int)),
            acc as nat == digits_value(s@.subrange(0, i as int)),
        decreases n - i,
    {
        let c = s.get_char(i);
        let u = c as u32;
        if !(48 <= u && u <= 57) {
            assert(!is_digit(s@[i as int]));
            return None;
        }
        let d: u64 = (u - 48) as u64;
        proof {
            assert(s@.subrange(0, i + 1).drop_last() =~= s@.subrange(0, i as int));
            assert(s@.subrange(0, i + 1).last() == s@[i as int]);
        }
        if acc > (u64::MAX - d) / 10 {
            proof {
                let full = digits_value(s@.subrange(0, i + 1));
                assert(full == acc * 10 + d);
                assert(acc * 10 + d > u64::MAX) by {
                    let q = ((u64::MAX - d) / 10) as int;
                    assert(q * 10 + (u64::MAX - d) as int % 10 == (u64::MAX - d) as int) by {
                        vstd::arithmetic::div_mod::lemma_fundamental_div_mod(
                            (u64::MAX - d) as int,
                            10,
                        );
                    }
                    assert(acc as int * 10 >= (q + 1) * 10) by (nonlinear_arith)
                        requires acc as int >= q + 1;
                }
                lemma_digits_value_extend(s@, i + 1, n as int);
                assert(s@.subrange(0, n as int) =~= s@);
            }
            return None;
        }
        proof {
            assert(acc * 10 + d <= u64::MAX) by {
                let q = ((u64::MAX - d) / 10) as int;
                assert(q * 10 <= (u64::MAX - d) as int) by {
                    vstd::arithmetic::div_mod::lemma_fundamental_div_mod(
                        (u64::MAX - d) as int,
                        10,
                    );
                }
                assert(acc as int * 10 <= q * 10) by (nonlinear_arith)
                    requires acc as int <= q;
            }
        }
        acc = acc * 10 + d;
        i = i + 1;
    }
    proof {
        assert(s@.subrange(0, n as int) =~= s@);
    }
    Some(acc)
}

/// Parses a digit string as a `u16`, under the same rules as [`parse_u64`].
pub fn parse_u16(s: &str) -> (r: Option<u16>)
    ensures
        r is Some <==> s@.len() > 0 && all_digits(s@) && digits_value(s@) <= u16::MAX,
        r is Some ==> r->0 as nat == digits_value(s@),
{
    match parse_u64(s) {
        Some(v) => {
            if v <= 0xFFFF {
                Some(v as u16)
            } else {
                None
            }
        },
        None => {
            proof {
                if s@.len() > 0 && all_digits(s@) && digits_value(s@) <= u16::MAX {
                    assert(seg_ok(s@));
                }
            }
            None
        },
    }
}

/// The canonical decimal digit character of a value below ten.
pub open spec fn dec_digit(d: nat) -> char
    recommends
        d < 10,
{
    if d == 0 { '0' }
    else if d == 1 { '1' }
    else if d == 2 { '2' }
    else if d == 3 { '3' }
    else if d == 4 { '4' }
    else if d == 5 { '5' }
    else if d == 6 { '6' }
    else if d == 7 { '7' }
    else if d == 8 { '8' }
    else { '9' }
}

/// Canonical decimal rendering of `n`: no sign, no leading zeros.
pub open spec fn canonical_dec(n: nat) -> Seq<char>
    decreases n,
{
    if n < 10 {
        seq![dec_digit(n)]
    } else {
        canonical_dec(n / 10) + seq![dec_digit(n % 10)]
    }
}

/// The one-character string of a decimal digit value.
fn dec_digit_str(d: u64) -> (r: &'static str)
    requires
        d < 10,
    ensures
        r@ == seq![dec_digit(d as nat)],
{
    proof {
        reveal_strlit("0");
        reveal_strlit("1");
        reveal_strlit("2");
        reveal_strlit("3");
        reveal_strlit("4");
        reveal_strlit("5");
        reveal_strlit("6");
        reveal_strlit("7");
        reveal_strlit("8");
        reveal_strlit("9");
    }
    if d == 0 {
        "0"
    } else if d == 1 {
        "1"
    } else if d == 2 {
        "2"
    } else if d == 3 {
        "3"
    } else if d == 4 {
        "4"
    } else if d == 5 {
        "5"
    } else if d == 6 {
        "6"
    } else if d == 7 {
        "7"
    } else if d == 8 {
        "8"
    } else {
        "9"
    }
}

/// Renders a value as its canonical decimal string: no sign, no leading
/// zeros.
pub fn decimal_string(n: u64) -> (r: String)
    ensures
        r@ == canonical_dec(n as nat),
    decreases n,
{
    if n < 10 {
        dec_digit_str(n).to_owned()
    } else {
        let mut s = decimal_string(n / 10);
        s.append(dec_digit_str(n % 10));
        s
    }
}

/// The canonical rendering is a non-empty digit string with the value it
/// renders.
pub proof fn lemma_canonical_dec(n: nat)
    ensures
        canonical_dec(n).len() > 0,
        all_digits(canonical_dec(n)),
        digits_value(canonical_dec(n)) == n,
    decreases n,
{
    if n < 10 {
        assert(canonical_dec(n) =~= seq![dec_digit(n)]);
        assert(canonical_dec(n).drop_last() =~= Seq::<char>::empty());
        assert(digit_val(dec_digit(n)) == n);
        assert(digits_value(canonical_dec(n)) == digits_value(Seq::<char>::empty()) * 10
            + digit_val(dec_digit(n)));
    } else {
        lemma_canonical_dec(n / 10);
        let s = canonical_dec(n);
        assert(s.drop_last() =~= canonical_dec(n / 10));
        assert(s.last() == dec_digit(n % 10));
        assert(digits_value(s) == (n / 10) * 10 + (n % 10));
        assert((n / 10) * 10 + (n % 10) == n) by {
            vstd::arithmetic::div_mod::lemma_fundamental_div_mod(n as int, 10);
        }
        assert forall|i: int| 0 <= i < s.len() implies is_digit(#[trigger] s[i]) by {
            if i < s.len() - 1 {
                assert(s[i] == canonical_dec(n / 10)[i]);
            }
        }
    }
}

} // verus!
