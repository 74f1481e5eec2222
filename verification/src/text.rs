//! Character-level utilities: uppercasing, conversion between `&str`,
//! `Vec<char>` and `String`, and comparison against string literals.

use vstd::prelude::*;
use vstd::string::StrSliceExecFns;

verus! {

/// ASCII uppercase of one character; other characters are unchanged.
pub open spec fn spec_upper_char(c: char) -> char {
    if 'a' <= c && c <= 'z' {
        (((c as u8) - 32) as char)
    } else {
        c
    }
}

/// ASCII uppercase of a whole character sequence.
pub open spec fn spec_upper(s: Seq<char>) -> Seq<char> {
    s.map_values(|c: char| spec_upper_char(c))
}

/// The characters of a string slice, in order.
pub fn str_chars(s: &str) -> (r: Vec<char>)
    ensures
        r@ == s@,
{
    let n = s.unicode_len();
    let mut r: Vec<char> = Vec::new();
    let mut i: usize = 0;
    while i < n
        invariant
            n == s@.len(),
            i <= n,
            r@ == s@.take(i as int),
        decreases n - i,
    {
        let c = s.get_char(i);
        r.push(c);
        i += 1;
        proof {
            assert(r@ =~= s@.take(i as int));
        }
    }
    proof {
        assert(s@.take(n as int) =~= s@);
    }
    r
}

/// ASCII uppercase of a character vector.
pub fn upper_chars(v: &Vec<char>) -> (r: Vec<char>)
    ensures
        r@ == spec_upper(v@),
{
    let mut r: Vec<char> = Vec::new();
    let mut i: usize = 0;
    while i < v.len()
        invariant
            i <= v.len(),
            r@ == spec_upper(v@.take(i as int)),
        decreases v.len() - i,
    {
        let c = v[i];
        if 'a' <= c && c <= 'z' {
            r.push(((c as u8) - 32) as char);
        } else {
            r.push(c);
        }
        i += 1;
        proof {
            assert(r@ =~= spec_upper(v@.take(i as int)));
        }
    }
    proof {
        assert(v@.take(v@.len() as int) =~= v@);
    }
    r
}

/// Relies on `core::iter::Iterator::collect` for `String`: collecting
/// characters yields the string made of exactly those characters in order.
#[verifier::external_body]
pub fn chars_to_string(v: &Vec<char>) -> (s: String)
    ensures
        s@ == v@,
{
    v.iter().collect()
}

/// The pieces of `s` between occurrences of the delimiter `d`, in order.
/// A sequence without the delimiter is one piece; `n` delimiters make
/// `n + 1` pieces, so the result is never empty.
pub open spec fn split_on(s: Seq<char>, d: char) -> Seq<Seq<char>>
    decreases s.len(),
{
    if s.len() == 0 {
        seq![Seq::<char>::empty()]
    } else if s.last() == d {
        split_on(s.drop_last(), d).push(Seq::<char>::empty())
    } else {
        let rest = split_on(s.drop_last(), d);
        rest.update(rest.len() - 1, rest.last().push(s.last()))
    }
}

pub proof fn lemma_split_on_len(s: Seq<char>, d: char)
    ensures
        split_on(s, d).len() >= 1,
    decreases s.len(),
{
    if s.len() != 0 {
        lemma_split_on_len(s.drop_last(), d);
    }
}

/// The first piece is the text before the first delimiter: it is a
/// prefix of `s`; when more pieces follow, the character just after it
/// is the delimiter; when it is the only piece, it is all of `s`.
pub proof fn lemma_split_on_first(s: Seq<char>, d: char)
    ensures
        split_on(s, d)[0].len() <= s.len(),
        split_on(s, d)[0] == s.take(split_on(s, d)[0].len() as int),
        split_on(s, d).len() > 1 ==> split_on(s, d)[0].len() < s.len() && s[split_on(
            s,
            d,
        )[0].len() as int] == d,
        split_on(s, d).len() == 1 ==> split_on(s, d)[0] == s,
    decreases s.len(),
{
    lemma_split_on_len(s, d);
    if s.len() == 0 {
        assert(s.take(0) =~= s);
    } else {
        lemma_split_on_first(s.drop_last(), d);
        lemma_split_on_len(s.drop_last(), d);
        let p = split_on(s.drop_last(), d);
        if s.last() == d {
            assert(split_on(s, d)[0] == p[0]);
            assert(s.drop_last().take(p[0].len() as int) =~= s.take(p[0].len() as int));
            if p.len() == 1 {
                assert(p[0] == s.drop_last());
                assert(s.drop_last() =~= s.take(s.len() - 1));
            }
        } else {
            if p.len() > 1 {
                assert(split_on(s, d)[0] == p[0]);
                assert(s.drop_last().take(p[0].len() as int) =~= s.take(p[0].len() as int));
            } else {
                assert(split_on(s, d)[0] == p[0].push(s.last()));
                assert(p[0] == s.drop_last());
                assert(p[0].push(s.last()) =~= s);
                assert(s.take(s.len() as int) =~= s);
            }
        }
    }
}

/// Splits a character vector at every occurrence of the delimiter.
pub fn split_chars(v: &Vec<char>, d: char) -> (r: Vec<Vec<char>>)
    ensures
        r.deep_view() == split_on(v@, d),
        r.len() >= 1,
{
    let mut pieces: Vec<Vec<char>> = Vec::new();
    let mut cur: Vec<char> = Vec::new();
    let mut i: usize = 0;
    proof {
        assert(v@.take(0) =~= Seq::<char>::empty());
        assert(pieces.deep_view().push(cur@) =~~= split_on(v@.take(0), d));
    }
    while i < v.len()
        invariant
            i <= v.len(),
            pieces.deep_view().push(cur@) =~~= split_on(v@.take(i as int), d),
        decreases v.len() - i,
    {
        let c = v[i];
        proof {
            assert(v@.take(i + 1).drop_last() =~= v@.take(i as int));
            assert(v@.take(i + 1).last() == c);
            lemma_split_on_len(v@.take(i as int), d);
        }
        if c == d {
            pieces.push(cur);
            cur = Vec::new();
            proof {
                assert(pieces.deep_view().push(cur@) =~~= split_on(v@.take(i + 1), d));
            }
        } else {
            cur.push(c);
            proof {
                assert(pieces.deep_view().push(cur@) =~~= split_on(v@.take(i + 1), d));
            }
        }
        i += 1;
    }
    proof {
        assert(v@.take(v@.len() as int) =~= v@);
    }
    pieces.push(cur);
    proof {
        assert(pieces.deep_view() =~~= split_on(v@, d));
    }
    pieces
}

/// An element of the deep view of a vector of character vectors is the
/// view of the element.
pub proof fn lemma_deep_index(v: &Vec<Vec<char>>, i: int)
    requires
        0 <= i < v@.len(),
    ensures
        v.deep_view()[i] == v@[i]@,
{
    assert(v.deep_view()[i] =~= v@[i]@);
}

/// The decimal digit character for a value below ten.
pub open spec fn spec_dec_digit(d: nat) -> char {
    (((d + 48) as u8) as char)
}

/// The decimal rendering of a number, most significant digit first,
/// without leading zeros (a single `'0'` for zero).
pub open spec fn spec_dec(n: nat) -> Seq<char>
    decreases n,
{
    if n < 10 {
        seq![spec_dec_digit(n)]
    } else {
        spec_dec(n / 10) + seq![spec_dec_digit(n % 10)]
    }
}

/// The characters of `v` in reverse order.
pub fn reverse_chars(v: &Vec<char>) -> (r: Vec<char>)
    ensures
        r@ == v@.reverse(),
{
    let n = v.len();
    let mut r: Vec<char> = Vec::new();
    let mut i: usize = 0;
    while i < n
        invariant
            n == v@.len(),
            i <= n,
            r@.len() == i,
            forall|j: int| 0 <= j < i ==> r@[j] == v@[n - 1 - j],
        decreases n - i,
    {
        r.push(v[n - 1 - i]);
        i += 1;
    }
    proof {
        assert(r@ =~= v@.reverse());
    }
    r
}

/// Renders a number in decimal.
pub fn u64_to_string(n: u64) -> (s: String)
    ensures
        s@ == spec_dec(n as nat),
{
    let mut digits: Vec<char> = Vec::new();
    let mut m: u64 = n;
    while m >= 10
        invariant
            spec_dec(n as nat) =~= spec_dec(m as nat) + digits@.reverse(),
        decreases m,
    {
        let d: u8 = (m % 10) as u8;
        proof {
            assert(spec_dec(m as nat) =~= spec_dec((m as nat) / 10) + seq![
                spec_dec_digit((m as nat) % 10),
            ]);
            assert(digits@.push(spec_dec_digit((m as nat) % 10)).reverse() =~= seq![
                spec_dec_digit((m as nat) % 10),
            ] + digits@.reverse());
        }
        digits.push((d + 48) as char);
        m = m / 10;
        proof {
            assert(spec_dec(n as nat) =~= spec_dec(m as nat) + digits@.reverse());
        }
    }
    let d: u8 = m as u8;
    proof {
        assert(digits@.push(spec_dec_digit(m as nat)).reverse() =~= seq![
            spec_dec_digit(m as nat),
        ] + digits@.reverse());
    }
    digits.push((d + 48) as char);
    let ordered = reverse_chars(&digits);
    proof {
        assert(ordered@ =~= spec_dec(n as nat));
    }
    chars_to_string(&ordered)
}

/// Appends all characters of `src` to `dst`.
pub fn extend_chars(dst: &mut Vec<char>, src: &Vec<char>)
    ensures
        final(dst)@ == old(dst)@ + src@,
{
    let mut i: usize = 0;
    while i < src.len()
        invariant
            i <= src@.len(),
            dst@ =~= old(dst)@ + src@.take(i as int),
        decreases src@.len() - i,
    {
        dst.push(src[i]);
        i += 1;
        proof {
            assert(dst@ =~= old(dst)@ + src@.take(i as int));
        }
    }
    proof {
        assert(src@.take(src@.len() as int) =~= src@);
    }
}

/// Whether two character vectors hold the same characters.
pub fn vec_eq(a: &Vec<char>, b: &Vec<char>) -> (r: bool)
    ensures
        r == (a@ == b@),
{
    if a.len() != b.len() {
        proof {
            assert(a@ != b@) by {
                assert(a@.len() != b@.len());
            }
        }
        return false;
    }
    let mut i: usize = 0;
    while i < a.len()
        invariant
            a@.len() == b@.len(),
            i <= a@.len(),
            forall|j: int| 0 <= j < i ==> a@[j] == b@[j],
        decreases a@.len() - i,
    {
        if a[i] != b[i] {
            return false;
        }
        i += 1;
    }
    proof {
        assert(a@ =~= b@);
    }
    true
}

/// Whether two string slices hold the same characters.
pub fn str_eq(a: &str, b: &str) -> (r: bool)
    ensures
        r == (a@ == b@),
{
    let n = a.unicode_len();
    if n != b.unicode_len() {
        proof {
            assert(a@ != b@) by {
                assert(a@.len() != b@.len());
            }
        }
        return false;
    }
    let mut i: usize = 0;
    while i < n
        invariant
            n == a@.len() == b@.len(),
            i <= n,
            forall|j: int| 0 <= j < i ==> a@[j] == b@[j],
        decreases n - i,
    {
        if a.get_char(i) != b.get_char(i) {
            return false;
        }
        i += 1;
    }
    proof {
        assert(a@ =~= b@);
    }
    true
}

/// A copy of the characters from `from` (inclusive) to `to` (exclusive).
pub fn subvec(v: &Vec<char>, from: usize, to: usize) -> (r: Vec<char>)
    requires
        from <= to <= v@.len(),
    ensures
        r@ == v@.subrange(from as int, to as int),
{
    let mut r: Vec<char> = Vec::new();
    let mut i: usize = from;
    while i < to
        invariant
            from <= i <= to <= v@.len(),
            r@ =~= v@.subrange(from as int, i as int),
        decreases to - i,
    {
        r.push(v[i]);
        i += 1;
        proof {
            assert(r@ =~= v@.subrange(from as int, i as int));
        }
    }
    r
}

/// Whether a character vector spells the given string slice.
pub fn vec_eq_str(v: &Vec<char>, s: &str) -> (r: bool)
    ensures
        r == (v@ == s@),
{
    let n = s.unicode_len();
    if v.len() != n {
        proof {
            assert(v@ != s@) by {
                assert(v@.len() != s@.len());
            }
        }
        return false;
    }
    let mut i: usize = 0;
    while i < n
        invariant
            n == s@.len(),
            v@.len() == n,
            i <= n,
            forall|j: int| 0 <= j < i ==> v@[j] == s@[j],
        decreases n - i,
    {
        if v[i] != s.get_char(i) {
            return false;
        }
        i += 1;
    }
    proof {
        assert(v@ =~= s@);
    }
    true
}

} // verus!
