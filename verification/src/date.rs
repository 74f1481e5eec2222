//! Estimated vaccination month and year for the Swedish national scheme.
//! The opaque id carries a serial-like dose count; an empirical fit of
//! the national rollout maps the count to a month. Below the saturation
//! point the fit is a tangent-shaped curve, which makes the month a
//! monotone step function of the count: [`month_raw`] holds the counts
//! at which the estimate first reaches each successive month. Above the
//! saturation point a constant monthly rate of 1552008 doses is assumed.

use vstd::prelude::*;

verus! {

pub open spec fn is_digit(c: char) -> bool {
    '0' <= c && c <= '9'
}

/// The input with every `V` (the scheme letter) removed.
pub open spec fn strip_v(s: Seq<char>) -> Seq<char>
    decreases s.len(),
{
    if s.len() == 0 {
        Seq::<char>::empty()
    } else {
        let rest = strip_v(s.drop_last());
        if s.last() == 'V' {
            rest
        } else {
            rest.push(s.last())
        }
    }
}

pub open spec fn all_digits(s: Seq<char>) -> bool
    decreases s.len(),
{
    if s.len() == 0 {
        true
    } else {
        all_digits(s.drop_last()) && is_digit(s.last())
    }
}

/// The decimal value of a digit string.
pub open spec fn digits_value(s: Seq<char>) -> nat
    decreases s.len(),
{
    if s.len() == 0 {
        0
    } else {
        digits_value(s.drop_last()) * 10 + (if is_digit(s.last()) {
            (((s.last() as int) - 48) as nat)
        } else {
            0
        })
    }
}

pub open spec fn pow10(k: nat) -> nat
    decreases k,
{
    if k == 0 {
        1
    } else {
        10 * pow10((k - 1) as nat)
    }
}

pub proof fn lemma_digits_value_bound(s: Seq<char>)
    ensures
        digits_value(s) < pow10(s.len()),
    decreases s.len(),
{
    if s.len() != 0 {
        lemma_digits_value_bound(s.drop_last());
    }
}

pub proof fn lemma_all_digits_index(s: Seq<char>, j: int)
    requires
        all_digits(s),
        0 <= j < s.len(),
    ensures
        is_digit(s[j]),
    decreases s.len(),
{
    if j < s.len() - 1 {
        lemma_all_digits_index(s.drop_last(), j);
    }
}

/// A digit string is at least as large as any of its prefixes.
pub proof fn lemma_digits_value_prefix(s: Seq<char>, j: int)
    requires
        0 <= j <= s.len(),
    ensures
        digits_value(s.take(j)) <= digits_value(s),
    decreases s.len() - j,
{
    if j < s.len() {
        assert(s.take(j + 1).drop_last() =~= s.take(j));
        assert(digits_value(s.take(j)) * 10 >= digits_value(s.take(j)));
        lemma_digits_value_prefix(s, j + 1);
    } else {
        assert(s.take(j) =~= s);
    }
}

pub proof fn lemma_strip_v_len(s: Seq<char>)
    ensures
        strip_v(s).len() <= s.len(),
    decreases s.len(),
{
    if s.len() != 0 {
        lemma_strip_v_len(s.drop_last());
    }
}

/// The unnormalized month estimate for a dose count. In the curve
/// region (counts up to 13983264) it counts how many of the curve's
/// month marks the count has passed; beyond it, a constant rate of
/// 1552008 doses a month is assumed.
pub open spec fn month_raw(n: nat) -> nat {
    if n <= 13983264 {
        if n < 174250 {
            0
        } else if n < 650620 {
            1
        } else if n < 1416651 {
            2
        } else if n < 2766801 {
            3
        } else if n < 5220533 {
            4
        } else if n < 8573585 {
            5
        } else if n < 11105951 {
            6
        } else if n < 12506277 {
            7
        } else if n < 13296752 {
            8
        } else if n < 13785711 {
            9
        } else {
            10
        }
    } else {
        n / 1552008
    }
}

/// The estimated calendar month, in the range 1 to 12; a raw month of
/// zero stands for December of the year before the rollout.
pub open spec fn spec_month(n: nat) -> nat {
    let m = month_raw(n);
    if m == 0 {
        12
    } else {
        ((m - 1) % 12 + 1) as nat
    }
}

/// The estimated calendar year; raw months count from the first rollout
/// year.
pub open spec fn spec_year(n: nat) -> nat {
    let m = month_raw(n);
    if m == 0 {
        2020
    } else {
        ((m - 1) / 12 + 2021) as nat
    }
}

/// Whether the opaque id yields a dose count at all: after the scheme
/// letter is removed, a nonempty digit string must remain.
pub open spec fn spec_date_ok(s: Seq<char>) -> bool {
    strip_v(s).len() > 0 && all_digits(strip_v(s))
}

/// The dose count carried by an opaque id.
pub open spec fn spec_date_value(s: Seq<char>) -> nat {
    digits_value(strip_v(s))
}

/// Estimates the vaccination month and year from a Swedish opaque id
/// such as `V12907267`. An id that carries no digits yields `(0, 0)`.
pub fn get_vaccination_date_tan(opaque_id: String) -> (r: (u8, u16))
    requires
        opaque_id@.len() <= 9,
    ensures
        !spec_date_ok(opaque_id@) ==> r == (0u8, 0u16),
        spec_date_ok(opaque_id@) ==> r.0 == spec_month(spec_date_value(opaque_id@)) && r.1
            == spec_year(spec_date_value(opaque_id@)),
{
    let s = opaque_id.as_str();
    let len = s.unicode_len();
    let mut i: usize = 0;
    let mut ok: bool = true;
    let mut ndigits: usize = 0;
    let mut n: u64 = 0;
    while i < len
        invariant
            len == s@.len() <= 9,
            i <= len,
            ok == all_digits(strip_v(s@.take(i as int))),
            ndigits == strip_v(s@.take(i as int)).len(),
            ok ==> n == digits_value(strip_v(s@.take(i as int))),
            n < 1000000000,
        decreases len - i,
    {
        let c = s.get_char(i);
        proof {
            let t0 = strip_v(s@.take(i as int));
            assert(s@.take(i + 1).drop_last() =~= s@.take(i as int));
            assert(s@.take(i + 1).last() == c);
            lemma_strip_v_len(s@.take(i as int));
            lemma_digits_value_bound(t0);
            lemma_pow10_mono(t0.len(), 8);
            assert(pow10(8) == 100000000) by {
                reveal_with_fuel(pow10, 9);
            }
            if c != 'V' {
                assert(strip_v(s@.take(i + 1)) =~= t0.push(c));
                assert(strip_v(s@.take(i + 1)).drop_last() =~= t0);
                assert(strip_v(s@.take(i + 1)).last() == c);
                assert(all_digits(strip_v(s@.take(i + 1))) == (all_digits(t0) && is_digit(c)));
            } else {
                assert(strip_v(s@.take(i + 1)) =~= t0);
            }
        }
        if c != 'V' {
            if ok && '0' <= c && c <= '9' {
                n = n * 10 + ((c as u8) - 48) as u64;
            } else {
                ok = false;
            }
            ndigits = ndigits + 1;
        }
        i += 1;
    }
    proof {
        assert(s@.take(len as int) =~= s@);
    }
    if !ok || ndigits == 0 {
        return (0, 0);
    }
    let m: u64 = if n <= 13983264 {
        if n < 174250 {
            0
        } else if n < 650620 {
            1
        } else if n < 1416651 {
            2
        } else if n < 2766801 {
            3
        } else if n < 5220533 {
            4
        } else if n < 8573585 {
            5
        } else if n < 11105951 {
            6
        } else if n < 12506277 {
            7
        } else if n < 13296752 {
            8
        } else if n < 13785711 {
            9
        } else {
            10
        }
    } else {
        n / 1552008
    };
    let year: u16 = if m == 0 {
        2020
    } else {
        (((m - 1) / 12) + 2021) as u16
    };
    let month: u8 = if m == 0 {
        12
    } else {
        (((m - 1) % 12) + 1) as u8
    };
    (month, year)
}

pub proof fn lemma_pow10_mono(a: nat, b: nat)
    ensures
        a <= b ==> pow10(a) <= pow10(b),
    decreases b,
{
    if b > 0 && a <= b {
        if a == b {
        } else {
            lemma_pow10_mono(a, (b - 1) as nat);
        }
    }
}

} // verus!

