//! Numbers as text: digits in a radix, written and read.

use vstd::prelude::*;

verus! {

/// The character of the digit `d` in a radix up to 36: `0` to `9`, then `a`
/// to `z`.
pub open spec fn digit_char(d: nat) -> u8 {
    if d < 10 {
        (48 + d) as u8
    } else {
        (87 + d) as u8
    }
}

/// The digits of `n`, most significant first, without leading zeros; the
/// single digit `0` for zero. In base 16 where `hex`, else in base 10.
pub open spec fn digits(n: nat, hex: bool) -> Seq<u8>
    decreases n,
{
    if hex {
        if n < 16 {
            seq![digit_char(n)]
        } else {
            digits(n / 16, true).push(digit_char(n % 16))
        }
    } else {
        if n < 10 {
            seq![digit_char(n)]
        } else {
            digits(n / 10, false).push(digit_char(n % 10))
        }
    }
}

/// The value of the character `c` as a digit: `0` to `9`, and the letters
/// of either case from ten on. `None` for every other character.
pub open spec fn digit_value(c: u8) -> Option<nat> {
    if 48 <= c <= 57 {
        Some((c - 48) as nat)
    } else if 97 <= c <= 122 {
        Some((c - 87) as nat)
    } else if 65 <= c <= 90 {
        Some((c - 55) as nat)
    } else {
        None
    }
}

/// Whether every character of `s` is a digit of `radix`.
pub open spec fn all_digits(s: Seq<u8>, radix: nat) -> bool {
    forall|i: int| 0 <= i < s.len() ==> digit_value(#[trigger] s[i]) is Some && digit_value(s[i])->0 < radix
}

/// The number that the digits `s` write in `radix`.
pub open spec fn value_of(s: Seq<u8>, radix: nat) -> nat
    decreases s.len(),
{
    if s.len() == 0 {
        0
    } else {
        value_of(s.drop_last(), radix) * radix + match digit_value(s.last()) {
            Some(d) => d,
            None => 0,
        }
    }
}

/// `s` without the `+` it may begin with.
pub open spec fn without_plus(s: Seq<u8>) -> Seq<u8> {
    if s.len() > 0 && s[0] == 43 {
        s.subrange(1, s.len() as int)
    } else {
        s
    }
}

/// What reading `s` as an unsigned 64-bit number in `radix` gives: one `+`
/// may come first, then at least one digit and nothing else, and the number
/// must fit.
pub open spec fn number_in(s: Seq<u8>, radix: nat) -> Option<u64> {
    let body = without_plus(s);
    if body.len() > 0 && all_digits(body, radix) && value_of(body, radix) <= u64::MAX {
        Some(value_of(body, radix) as u64)
    } else {
        None
    }
}

/// The number written by a longer run of digits is no smaller.
pub proof fn lemma_value_grows(s: Seq<u8>, radix: nat, n: int)
    requires
        radix >= 1,
        0 <= n <= s.len(),
    ensures
        value_of(s.subrange(0, n), radix) <= value_of(s, radix),
    decreases s.len() - n,
{
    if n < s.len() {
        let next = s.subrange(0, n + 1);
        assert(next.drop_last() =~= s.subrange(0, n));
        lemma_value_grows(s, radix, n + 1);
        assert(value_of(next.drop_last(), radix) * radix >= value_of(next.drop_last(), radix))
            by (nonlinear_arith)
            requires
                radix >= 1,
        ;
    } else {
        assert(s.subrange(0, n) =~= s);
    }
}

/// Appends the digits of `n`: in base 16 where `hex`, else in base 10.
pub fn push_digits(out: &mut Vec<u8>, n: u64, hex: bool)
    ensures
        final(out)@ == old(out)@ + digits(n as nat, hex),
{
    let radix: u64 = if hex { 16 } else { 10 };
    let mut low_first: Vec<u8> = Vec::new();
    let mut rest: u64 = n;
    loop
        invariant_except_break
            low_first@.len() == 0 ==> rest == n,
            low_first@.len() > 0 ==> rest > 0,
        invariant
            radix == if hex { 16u64 } else { 10u64 },
            digits(n as nat, hex) == if low_first@.len() == 0 {
                digits(rest as nat, hex)
            } else if rest == 0 {
                low_first@.reverse()
            } else {
                digits(rest as nat, hex) + low_first@.reverse()
            },
        ensures
            rest == 0,
            low_first@.len() > 0,
        decreases rest,
    {
        let d: u64 = rest % radix;
        let c: u8 = if d < 10 { (48 + d) as u8 } else { (87 + d) as u8 };
        let ghost before = low_first@;
        let ghost was = rest;
        proof {
            assert(c == digit_char(d as nat));
            assert(before.push(c).reverse() =~= seq![c] + before.reverse());
            if was >= radix {
                assert(digits(was as nat, hex) == digits((was / radix) as nat, hex).push(c));
                assert(digits((was / radix) as nat, hex).push(c) + before.reverse() =~= digits(
                    (was / radix) as nat,
                    hex,
                ) + (seq![c] + before.reverse()));
            } else {
                assert(digits(was as nat, hex) == seq![c]);
                assert(seq![c] + before.reverse() =~= before.push(c).reverse());
            }
        }
        low_first.push(c);
        rest = rest / radix;
        if rest == 0 {
            break ;
        }
    }
    let mut i: usize = low_first.len();
    while i > 0
        invariant
            i <= low_first@.len(),
            out@ == old(out)@ + low_first@.reverse().subrange(0, low_first@.len() - i),
        decreases i,
    {
        i = i - 1;
        out.push(low_first[i]);
        assert(out@ =~= old(out)@ + low_first@.reverse().subrange(0, low_first@.len() - i));
    }
    assert(low_first@.reverse().subrange(0, low_first@.len() as int) =~= low_first@.reverse());
}

/// Reads `s` as an unsigned 64-bit number in `radix`.
pub fn parse_number(s: &[u8], radix: u64) -> (r: Option<u64>)
    requires
        2 <= radix <= 36,
    ensures
        r == number_in(s@, radix as nat),
{
    let start: usize = if s.len() > 0 && s[0] == 43 { 1 } else { 0 };
    let ghost body = without_plus(s@);
    assert(body =~= s@.subrange(start as int, s@.len() as int));
    if start >= s.len() {
        return None;
    }
    let mut value: u64 = 0;
    let mut i: usize = start;
    while i < s.len()
        invariant
            2 <= radix <= 36,
            start <= i <= s.len(),
            start <= 1,
            body == without_plus(s@),
            body == s@.subrange(start as int, s@.len() as int),
            all_digits(body.subrange(0, i - start), radix as nat),
            value == value_of(body.subrange(0, i - start), radix as nat),
        decreases s.len() - i,
    {
        let c = s[i];
        let d: u64 = if 48 <= c && c <= 57 {
            (c - 48) as u64
        } else if 97 <= c && c <= 122 {
            (c - 87) as u64
        } else if 65 <= c && c <= 90 {
            (c - 55) as u64
        } else {
            radix
        };
        let ghost upto = body.subrange(0, i - start + 1);
        proof {
            assert(upto.drop_last() =~= body.subrange(0, i - start));
            assert(upto.last() == c);
            assert(body[i - start] == c);
        }
        if d >= radix {
            assert(!all_digits(body, radix as nat));
            return None;
        }
        let shifted = match value.checked_mul(radix) {
            Some(v) => v,
            None => {
                proof {
                    lemma_value_grows(body, radix as nat, i - start + 1);
                    assert(value_of(upto, radix as nat) > u64::MAX);
                }
                return None;
            },
        };
        value = match shifted.checked_add(d) {
            Some(v) => v,
            None => {
                proof {
                    lemma_value_grows(body, radix as nat, i - start + 1);
                }
                return None;
            },
        };
        proof {
            assert forall|k: int| 0 <= k < upto.len() implies digit_value(#[trigger] upto[k]) is Some
                && digit_value(upto[k])->0 < radix by {
                if k < upto.len() - 1 {
                    assert(upto[k] == body.subrange(0, i - start)[k]);
                }
            }
        }
        i = i + 1;
    }
    assert(body.subrange(0, i - start) =~= body);
    Some(value)
}

} // verus!
