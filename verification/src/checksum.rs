//! Integrity check of an identifier: the characters are remapped from the
//! scheme's native symbol order into the order the Luhn validator expects,
//! and the whole remapped string (check character included) is validated
//! with the generalized Luhn mod-38 algorithm.

use vstd::prelude::*;
use crate::text::chars_to_string;

verus! {

/// Position of a character in the checksum alphabet
/// `/0123456789:ABCDEFGHIJKLMNOPQRSTUVWXYZ`, or `-1` when it is not there.
pub open spec fn code_of(c: char) -> int {
    if c == '/' {
        0
    } else if '0' <= c && c <= '9' {
        (c as int) - 47
    } else if c == ':' {
        11
    } else if 'A' <= c && c <= 'Z' {
        (c as int) - 53
    } else {
        -1
    }
}

/// Whether a character belongs to the checksum alphabet.
pub open spec fn in_alphabet(c: char) -> bool {
    code_of(c) >= 0
}

/// The character at a position of the checksum alphabet.
pub open spec fn char_of(i: int) -> char {
    if i == 0 {
        '/'
    } else if 1 <= i && i <= 10 {
        (((i + 47) as u8) as char)
    } else if i == 11 {
        ':'
    } else {
        (((i + 53) as u8) as char)
    }
}

/// The checksum alphabet as a character sequence.
pub open spec fn target_alphabet() -> Seq<char> {
    Seq::new(38, |i: int| char_of(i))
}

/// One Luhn addend: the doubled (or plain) code with its mod-38 carry
/// folded back in.
pub open spec fn luhn_addend(cp: int, factor: int) -> int {
    (factor * cp) / 38 + (factor * cp) % 38
}

/// The Luhn running sum over a string: character codes are weighted
/// alternately by 1 and 2, starting with 1 at the first character.
pub open spec fn luhn_sum(s: Seq<char>) -> int
    decreases s.len(),
{
    if s.len() == 0 {
        0
    } else {
        luhn_sum(s.drop_last()) + luhn_addend(
            code_of(s.last()),
            if (s.len() - 1) % 2 == 0 {
                1
            } else {
                2
            },
        )
    }
}

/// The check character that makes a string's Luhn sum vanish mod 38.
pub open spec fn luhn_check_char(s: Seq<char>) -> char {
    char_of((38 - luhn_sum(s) % 38) % 38)
}

/// A string validates when its last character is the check character of
/// the rest.
pub open spec fn spec_luhn_valid(s: Seq<char>) -> bool {
    s.last() == luhn_check_char(s.drop_last())
}

/// The native-to-checksum-alphabet substitution. The native symbol order
/// is `A`-`Z`, `0`-`9`, `/`, `:`; each symbol is replaced by the one at
/// the same position of the checksum alphabet, except that `Z` shares
/// `M` with `Y` (a deliberate collapse: the mapping feeds a one-way
/// checksum and is never inverted). Characters outside the native
/// alphabet pass through unchanged.
pub open spec fn remap_char(c: char) -> char {
    if c == 'A' {
        '/'
    } else if 'B' <= c && c <= 'K' {
        ((((c as int) - 18) as u8) as char)
    } else if c == 'L' {
        ':'
    } else if 'M' <= c && c <= 'Y' {
        ((((c as int) - 12) as u8) as char)
    } else if c == 'Z' {
        'M'
    } else if '0' <= c && c <= '9' {
        ((((c as int) + 31) as u8) as char)
    } else if c == '/' {
        'Y'
    } else if c == ':' {
        'Z'
    } else {
        c
    }
}

/// The remapped form of an identifier: `#` removed, every other
/// character substituted by [`remap_char`].
pub open spec fn spec_rearrange(s: Seq<char>) -> Seq<char>
    decreases s.len(),
{
    if s.len() == 0 {
        Seq::<char>::empty()
    } else {
        let rest = spec_rearrange(s.drop_last());
        if s.last() == '#' {
            rest
        } else {
            rest.push(remap_char(s.last()))
        }
    }
}

/// Remaps an identifier for checksum validation.
pub fn rearrange(v: &Vec<char>) -> (r: Vec<char>)
    ensures
        r@ == spec_rearrange(v@),
{
    let mut r: Vec<char> = Vec::new();
    let mut i: usize = 0;
    while i < v.len()
        invariant
            i <= v.len(),
            r@ =~= spec_rearrange(v@.take(i as int)),
        decreases v.len() - i,
    {
        let c = v[i];
        proof {
            assert(v@.take(i + 1).drop_last() =~= v@.take(i as int));
            assert(v@.take(i + 1).last() == c);
        }
        if c != '#' {
            if c == 'A' {
                r.push('/');
            } else if 'B' <= c && c <= 'K' {
                r.push((((c as u8) - 18) as char));
            } else if c == 'L' {
                r.push(':');
            } else if 'M' <= c && c <= 'Y' {
                r.push((((c as u8) - 12) as char));
            } else if c == 'Z' {
                r.push('M');
            } else if '0' <= c && c <= '9' {
                r.push((((c as u8) + 31) as char));
            } else if c == '/' {
                r.push('Y');
            } else if c == ':' {
                r.push('Z');
            } else {
                r.push(c);
            }
        }
        i += 1;
    }
    proof {
        assert(v@.take(v@.len() as int) =~= v@);
    }
    r
}

/// Relies on luhn-rs's `Luhn::new` and `Luhn::validate`. `new` sorts the
/// alphabet and checks it for duplicates; the required alphabet is
/// strictly ascending in character order and duplicate-free, so `new`
/// succeeds and keeps it unchanged, and a character's codepoint is its
/// position in it ([`code_of`]). `validate` fails on a string of byte
/// length at most 1 or with a character of the leading part outside the
/// alphabet; otherwise it recomputes the check character of the leading
/// part with the Luhn mod-38 algorithm (codes weighted 1,2,1,2,... from
/// the first character, each addend reduced by `a/38 + a%38`, check code
/// `(38 - sum%38) % 38`) and compares it with the last character. The
/// length bound keeps the validator's running sum far from overflow.
#[verifier::external_body]
fn luhn_validate(alphabet: &str, s: &String) -> (r: Option<bool>)
    requires
        alphabet@ == target_alphabet(),
        s@.len() <= 1000000,
    ensures
        (s@.len() > 1 && (forall|i: int| 0 <= i < s@.len() ==> in_alphabet(s@[i]))) ==> r
            == Some(spec_luhn_valid(s@)),
        r == Some(true) ==> (s@.len() > 1 && (forall|i: int|
            0 <= i < s@.len() ==> in_alphabet(s@[i])) && spec_luhn_valid(s@)),
{
    match luhn::Luhn::new(alphabet) {
        Ok(l) => match l.validate(s.as_str()) {
            Ok(b) => Some(b),
            Err(_) => None,
        },
        Err(_) => None,
    }
}

/// Whether the identifier (in canonical form, `#` still present) passes
/// the checksum: its remapped form must be longer than one character,
/// stay inside the checksum alphabet and have a vanishing Luhn sum.
pub open spec fn spec_checksum_ok(c: Seq<char>) -> bool {
    let r = spec_rearrange(c);
    r.len() > 1 && (forall|i: int| 0 <= i < r.len() ==> in_alphabet(r[i])) && spec_luhn_valid(r)
}

/// Validates the checksum of a canonicalized identifier.
pub fn verify_checksum(canonical: &Vec<char>) -> (b: bool)
    requires
        canonical@.len() <= 1000,
    ensures
        b == spec_checksum_ok(canonical@),
{
    let rearranged = rearrange(canonical);
    proof {
        lemma_rearrange_len(canonical@);
    }
    let s = chars_to_string(&rearranged);
    let alphabet = "/0123456789:ABCDEFGHIJKLMNOPQRSTUVWXYZ";
    proof {
        reveal_strlit("/0123456789:ABCDEFGHIJKLMNOPQRSTUVWXYZ");
        assert(alphabet@ =~= target_alphabet());
    }
    match luhn_validate(alphabet, &s) {
        Some(b) => b,
        None => {
            proof {
                if spec_checksum_ok(canonical@) {
                    assert(false);
                }
            }
            false
        },
    }
}

/// The remapped form is never longer than the identifier.
pub proof fn lemma_rearrange_len(s: Seq<char>)
    ensures
        spec_rearrange(s).len() <= s.len(),
    decreases s.len(),
{
    if s.len() != 0 {
        lemma_rearrange_len(s.drop_last());
    }
}

} // verus!
