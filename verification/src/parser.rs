//! The identifier grammar. Parsing is tolerant: every structural
//! mismatch ends the walk early and returns the record as accumulated,
//! with the remaining fields at their defaults. The checksum is judged
//! before any structure is read, so even a structurally hopeless
//! identifier carries a checksum verdict.

use vstd::prelude::*;
use vstd::string::StringExecFns;
use crate::checksum::{spec_checksum_ok, verify_checksum};
use crate::date::{all_digits, digits_value, get_vaccination_date_tan, is_digit,
    lemma_all_digits_index, lemma_digits_value_prefix, spec_date_ok, spec_date_value, spec_month,
    spec_year};
use crate::record::{default_record, spec_default, Uvci, UvciModel};
use crate::text::{chars_to_string, lemma_deep_index, lemma_split_on_first, spec_upper,
    spec_upper_char, split_chars, split_on, str_chars, subvec, upper_chars, vec_eq_str};

verus! {

/// The canonical scheme prefix.
pub open spec fn prefix_seq() -> Seq<char> {
    "URN:UVCI:"@
}

/// Whether a sequence starts with the canonical prefix.
pub open spec fn spec_has_prefix(s: Seq<char>) -> bool {
    s.len() >= 9 && s.take(9) == prefix_seq()
}

/// Uppercased and, if the prefix was missing, prefixed.
pub open spec fn spec_canonical(s: Seq<char>) -> Seq<char> {
    let u = spec_upper(s);
    if spec_has_prefix(u) {
        u
    } else {
        prefix_seq() + u
    }
}

/// The version number a block encodes: an optional `+`, then decimal
/// digits, with a value at most 255; anything else encodes nothing.
pub open spec fn spec_parse_u8(b: Seq<char>) -> Option<u8> {
    let t = if b.len() > 0 && b[0] == '+' {
        b.drop_first()
    } else {
        b
    };
    if t.len() == 0 || !all_digits(t) {
        None
    } else if digits_value(t) > 255 {
        None
    } else {
        Some(digits_value(t) as u8)
    }
}

/// The version field for a block: its encoded number, or zero.
pub open spec fn version_of(b: Seq<char>) -> nat {
    match spec_parse_u8(b) {
        Some(v) => v as nat,
        None => 0,
    }
}

/// The record parsed from an identifier already in canonical form.
/// The `#` is split at most once: the body is the text before the
/// first `#`, the checksum field all text after it. The header check
/// rejects only when the first block differs from `URN` *and* the
/// second from `UVCI` — a deliberate conjunction, kept because the
/// tolerant behavior it gives is relied upon.
pub open spec fn spec_parse_canonical(c: Seq<char>) -> UvciModel {
    let hash_pieces = split_on(c, '#');
    let m0 = UvciModel {
        checksum_verification: spec_checksum_ok(c),
        checksum: if hash_pieces.len() > 1 {
            c.skip(hash_pieces[0].len() + 1 as int)
        } else {
            Seq::<char>::empty()
        },
        ..spec_default()
    };
    let blocks = split_on(hash_pieces[0], ':');
    if blocks.len() >= 2 && blocks[0] != "URN"@ && blocks[1] != "UVCI"@ {
        m0
    } else if blocks.len() < 4 {
        m0
    } else {
        let m1 = UvciModel { version: version_of(blocks[2]), country: blocks[3], ..m0 };
        if blocks.len() < 5 {
            m1
        } else {
            let segs = split_on(blocks[4], '/');
            let m2 = if segs.len() == 3 {
                UvciModel {
                    schema_option_number: 1,
                    schema_option_desc: "identifier with semantics"@,
                    issuing_entity: segs[0],
                    vaccine_id: segs[1],
                    opaque_unique_string: segs[2],
                    ..m1
                }
            } else if segs.len() == 1 {
                UvciModel {
                    schema_option_number: 2,
                    schema_option_desc: "opaque identifier - no structure"@,
                    opaque_unique_string: segs[0],
                    ..m1
                }
            } else if segs.len() == 2 {
                UvciModel {
                    schema_option_number: 3,
                    schema_option_desc: "some semantics"@,
                    issuing_entity: segs[0],
                    opaque_unique_string: segs[1],
                    ..m1
                }
            } else {
                m1
            };
            if m2.version == 1 && m2.country == "SE"@ && m2.issuing_entity == "EHM"@
                && m2.schema_option_number == 3 && m2.opaque_unique_string.len() == 13 {
                let oid = m2.opaque_unique_string.take(9);
                UvciModel {
                    opaque_id: oid,
                    opaque_issuance: m2.opaque_unique_string.skip(9),
                    opaque_vaccination_month: if spec_date_ok(oid) {
                        spec_month(spec_date_value(oid))
                    } else {
                        0
                    },
                    opaque_vaccination_year: if spec_date_ok(oid) {
                        spec_year(spec_date_value(oid))
                    } else {
                        0
                    },
                    ..m2
                }
            } else {
                m2
            }
        }
    }
}

/// The record parsed from raw input: the empty string and inputs longer
/// than 72 characters yield the all-default record; everything else is
/// uppercased, prefixed when necessary, and read by
/// [`spec_parse_canonical`].
pub open spec fn spec_parse(s: Seq<char>) -> UvciModel {
    if s.len() == 0 || s.len() > 72 {
        spec_default()
    } else {
        spec_parse_canonical(spec_canonical(s))
    }
}

/// Law: an input longer than 72 characters parses to the all-default
/// record.
pub proof fn lemma_too_long_default(s: Seq<char>)
    requires
        s.len() > 72,
    ensures
        spec_parse(s) == spec_default(),
{
}

/// Law: the schema option of a parsed record is at most 3, whatever
/// the input.
pub proof fn lemma_schema_option_bounded(s: Seq<char>)
    ensures
        spec_parse(s).schema_option_number <= 3,
{
}

/// Law: parsing is case-insensitive; an input and its uppercase form
/// parse to the same record.
pub proof fn lemma_parse_case_insensitive(s: Seq<char>)
    ensures
        spec_parse(spec_upper(s)) == spec_parse(s),
{
    assert(spec_upper(s).len() == s.len());
    if !(s.len() == 0 || s.len() > 72) {
        assert(spec_upper(spec_upper(s)) =~= spec_upper(s)) by {
            assert forall|i: int| 0 <= i < s.len() implies spec_upper(spec_upper(s))[i]
                == spec_upper(s)[i] by {
                assert(spec_upper(s)[i] == spec_upper_char(s[i]));
                assert(spec_upper(spec_upper(s))[i] == spec_upper_char(spec_upper_char(s[i])));
            }
        }
        assert(spec_canonical(spec_upper(s)) == spec_canonical(s));
    }
}

/// Law: an identifier that does not carry the canonical prefix parses
/// exactly as its prefixed form, as long as the prefixed form stays
/// within the length bound.
pub proof fn lemma_prefix_tolerance(s: Seq<char>)
    requires
        0 < s.len(),
        s.len() + 9 <= 72,
        !spec_has_prefix(spec_upper(s)),
    ensures
        spec_parse(prefix_seq() + s) == spec_parse(s),
{
    reveal_strlit("URN:UVCI:");
    let p = prefix_seq() + s;
    assert(p.len() == s.len() + 9);
    assert(spec_upper(p) =~= prefix_seq() + spec_upper(s)) by {
        assert forall|i: int| 0 <= i < p.len() implies spec_upper(p)[i] == (prefix_seq()
            + spec_upper(s))[i] by {
            assert(spec_upper(p)[i] == spec_upper_char(p[i]));
            if i < 9 {
                assert(p[i] == prefix_seq()[i]);
                assert(spec_upper_char(prefix_seq()[i]) == prefix_seq()[i]);
            } else {
                assert(p[i] == s[i - 9]);
                assert(spec_upper(s)[i - 9] == spec_upper_char(s[i - 9]));
            }
        }
    }
    assert(spec_has_prefix(spec_upper(p))) by {
        assert(spec_upper(p).take(9) =~= prefix_seq());
    }
    assert(spec_canonical(p) == spec_canonical(s));
}

/// Law: the schema option, its description and the fields it carries
/// are decided by the number of `/`-separated segments of the fifth
/// block alone: three segments give option 1, one gives option 2, two
/// give option 3, and any other count leaves option 0 with no fields.
pub proof fn lemma_schema_dispatch(c: Seq<char>)
    requires
        ({
            let blocks = split_on(split_on(c, '#')[0], ':');
            blocks.len() >= 5 && !(blocks[0] != "URN"@ && blocks[1] != "UVCI"@)
        }),
    ensures
        ({
            let blocks = split_on(split_on(c, '#')[0], ':');
            let segs = split_on(blocks[4], '/');
            let m = spec_parse_canonical(c);
            &&& (segs.len() == 3 ==> m.schema_option_number == 1 && m.schema_option_desc
                == "identifier with semantics"@ && m.issuing_entity == segs[0] && m.vaccine_id
                == segs[1] && m.opaque_unique_string == segs[2])
            &&& (segs.len() == 1 ==> m.schema_option_number == 2 && m.schema_option_desc
                == "opaque identifier - no structure"@ && m.opaque_unique_string == segs[0])
            &&& (segs.len() == 2 ==> m.schema_option_number == 3 && m.schema_option_desc
                == "some semantics"@ && m.issuing_entity == segs[0] && m.opaque_unique_string
                == segs[1])
            &&& (!(segs.len() == 1 || segs.len() == 2 || segs.len() == 3)
                ==> m.schema_option_number == 0 && m.schema_option_desc
                == Seq::<char>::empty())
        }),
{
}

/// Whether a character vector starts with the canonical prefix.
fn starts_with_prefix(v: &Vec<char>) -> (r: bool)
    ensures
        r == spec_has_prefix(v@),
{
    proof {
        reveal_strlit("URN:UVCI:");
    }
    if v.len() < 9 {
        return false;
    }
    let r = v[0] == 'U' && v[1] == 'R' && v[2] == 'N' && v[3] == ':' && v[4] == 'U' && v[5] == 'V'
        && v[6] == 'C' && v[7] == 'I' && v[8] == ':';
    proof {
        if r {
            assert(v@.take(9) =~= prefix_seq());
        } else if v@.take(9) == prefix_seq() {
            assert(v@[0] == prefix_seq()[0]);
            assert(v@[1] == prefix_seq()[1]);
            assert(v@[2] == prefix_seq()[2]);
            assert(v@[3] == prefix_seq()[3]);
            assert(v@[4] == prefix_seq()[4]);
            assert(v@[5] == prefix_seq()[5]);
            assert(v@[6] == prefix_seq()[6]);
            assert(v@[7] == prefix_seq()[7]);
            assert(v@[8] == prefix_seq()[8]);
            assert(false);
        }
    }
    r
}

/// Prepends the canonical prefix.
fn prepend_prefix(v: &Vec<char>) -> (r: Vec<char>)
    ensures
        r@ == prefix_seq() + v@,
{
    proof {
        reveal_strlit("URN:UVCI:");
    }
    let mut r: Vec<char> = Vec::new();
    r.push('U');
    r.push('R');
    r.push('N');
    r.push(':');
    r.push('U');
    r.push('V');
    r.push('C');
    r.push('I');
    r.push(':');
    let mut i: usize = 0;
    while i < v.len()
        invariant
            i <= v.len(),
            r@ =~= prefix_seq() + v@.take(i as int),
        decreases v.len() - i,
    {
        r.push(v[i]);
        i += 1;
        proof {
            assert(r@ =~= prefix_seq() + v@.take(i as int));
        }
    }
    proof {
        assert(v@.take(v@.len() as int) =~= v@);
    }
    r
}

/// Reads the version number of a block; blocks that encode nothing
/// yield zero.
fn parse_u8_chars(b: &Vec<char>) -> (r: u8)
    ensures
        r as nat == version_of(b@),
{
    let start: usize = if b.len() > 0 && b[0] == '+' {
        1
    } else {
        0
    };
    let ghost t = if b@.len() > 0 && b@[0] == '+' {
        b@.drop_first()
    } else {
        b@
    };
    proof {
        assert(t =~= b@.subrange(start as int, b@.len() as int));
    }
    if b.len() == start {
        return 0;
    }
    let mut acc: u32 = 0;
    let mut i: usize = start;
    while i < b.len()
        invariant
            start <= i <= b@.len(),
            start == (if b@.len() > 0 && b@[0] == '+' {
                1int
            } else {
                0int
            }),
            t == (if b@.len() > 0 && b@[0] == '+' {
                b@.drop_first()
            } else {
                b@
            }),
            t == b@.subrange(start as int, b@.len() as int),
            t.len() == b@.len() - start,
            acc <= 255,
            all_digits(t.take(i - start)),
            acc == digits_value(t.take(i - start)),
        decreases b@.len() - i,
    {
        let c = b[i];
        proof {
            assert(t[i - start] == b@[i as int]);
            assert(t.take(i + 1 - start).drop_last() =~= t.take(i - start));
            assert(t.take(i + 1 - start).last() == c);
        }
        if !('0' <= c && c <= '9') {
            proof {
                if all_digits(t) {
                    lemma_all_digits_index(t, i - start);
                    assert(is_digit(t[i - start]));
                    assert(t[i - start] == c);
                    assert(false);
                }
                assert(!all_digits(t));
                assert(spec_parse_u8(b@) is None);
                assert(version_of(b@) == 0);
            }
            return 0;
        }
        acc = acc * 10 + ((c as u8) - 48) as u32;
        proof {
            assert(all_digits(t.take(i + 1 - start)));
            assert(acc == digits_value(t.take(i + 1 - start)));
        }
        if acc > 255 {
            proof {
                if all_digits(t) {
                    lemma_digits_value_prefix(t, i + 1 - start);
                }
            }
            return 0;
        }
        i += 1;
    }
    proof {
        assert(t.take(t.len() as int) =~= t);
    }
    acc as u8
}

/// Parses an identifier string into a record. The result's fields are
/// exactly those of [`spec_parse`] on the input's characters; nothing
/// is reported by error or panic.
pub fn parse(cert_id: &str) -> (r: Uvci)
    ensures
        r@ == spec_parse(cert_id@),
{
    let chars = str_chars(cert_id);
    let mut rec = default_record();
    if chars.len() == 0 {
        proof {
            assert(rec@ =~~= spec_parse(cert_id@));
        }
        return rec;
    }
    if chars.len() > 72 {
        proof {
            assert(rec@ =~~= spec_parse(cert_id@));
        }
        return rec;
    }
    let upper = upper_chars(&chars);
    let canonical: Vec<char> = if starts_with_prefix(&upper) {
        upper
    } else {
        prepend_prefix(&upper)
    };
    proof {
        reveal_strlit("URN:UVCI:");
        assert(prefix_seq().len() == 9);
        assert(spec_upper(chars@).len() == chars@.len());
        assert(canonical@ == spec_canonical(cert_id@));
        assert(canonical@.len() <= 81);
    }
    let ghost c = canonical@;
    rec.checksum_verification = verify_checksum(&canonical);
    let hash_pieces = split_chars(&canonical, '#');
    if hash_pieces.len() > 1 {
        proof {
            lemma_deep_index(&hash_pieces, 0);
            lemma_split_on_first(c, '#');
        }
        let body_len = hash_pieces[0].len();
        let tail = subvec(&canonical, body_len + 1, canonical.len());
        rec.checksum = chars_to_string(&tail);
        proof {
            assert(rec.checksum@ =~= c.skip(split_on(c, '#')[0].len() + 1 as int));
        }
    }
    proof {
        lemma_deep_index(&hash_pieces, 0);
    }
    let blocks = split_chars(&hash_pieces[0], ':');
    proof {
        assert(hash_pieces@[0]@ == split_on(c, '#')[0]);
        assert(blocks.deep_view() == split_on(split_on(c, '#')[0], ':'));
    }
    let ghost sblocks = split_on(split_on(c, '#')[0], ':');
    proof {
        if blocks@.len() >= 2 {
            lemma_deep_index(&blocks, 0);
            lemma_deep_index(&blocks, 1);
        }
    }
    if blocks.len() >= 2 && !vec_eq_str(&blocks[0], "URN") && !vec_eq_str(&blocks[1], "UVCI") {
        proof {
            assert(rec@ =~~= spec_parse(cert_id@));
        }
        return rec;
    }
    if blocks.len() < 4 {
        proof {
            assert(rec@ =~~= spec_parse(cert_id@));
        }
        return rec;
    }
    proof {
        lemma_deep_index(&blocks, 2);
        lemma_deep_index(&blocks, 3);
    }
    rec.version = parse_u8_chars(&blocks[2]);
    rec.country = chars_to_string(&blocks[3]);
    proof {
        assert(rec.version as nat == version_of(sblocks[2]));
        assert(rec.country@ == sblocks[3]);
    }
    if blocks.len() < 5 {
        proof {
            assert(rec@ =~~= spec_parse(cert_id@));
        }
        return rec;
    }
    proof {
        lemma_deep_index(&blocks, 4);
    }
    let segs = split_chars(&blocks[4], '/');
    proof {
        assert(blocks@[4]@ == sblocks[4]);
        assert(segs.deep_view() == split_on(sblocks[4], '/'));
    }
    let ghost ssegs = split_on(sblocks[4], '/');
    proof {
        if segs@.len() >= 1 {
            lemma_deep_index(&segs, 0);
        }
        if segs@.len() >= 2 {
            lemma_deep_index(&segs, 1);
        }
        if segs@.len() >= 3 {
            lemma_deep_index(&segs, 2);
        }
    }
    if segs.len() == 3 {
        rec.schema_option_number = 1;
        rec.schema_option_desc = String::from_str("identifier with semantics");
        rec.issuing_entity = chars_to_string(&segs[0]);
        rec.vaccine_id = chars_to_string(&segs[1]);
        rec.opaque_unique_string = chars_to_string(&segs[2]);
    } else if segs.len() == 1 {
        rec.schema_option_number = 2;
        rec.schema_option_desc = String::from_str("opaque identifier - no structure");
        rec.opaque_unique_string = chars_to_string(&segs[0]);
    } else if segs.len() == 2 {
        rec.schema_option_number = 3;
        rec.schema_option_desc = String::from_str("some semantics");
        rec.issuing_entity = chars_to_string(&segs[0]);
        rec.opaque_unique_string = chars_to_string(&segs[1]);
    }
    let national = rec.version == 1 && vec_eq_str(&blocks[3], "SE") && segs.len() == 2
        && vec_eq_str(&segs[0], "EHM") && segs[1].len() == 13;
    if national {
        let oid = subvec(&segs[1], 0, 9);
        let oiss = subvec(&segs[1], 9, 13);
        proof {
            assert(oid@ == ssegs[1].take(9));
            assert(oiss@ == ssegs[1].skip(9));
        }
        rec.opaque_id = chars_to_string(&oid);
        rec.opaque_issuance = chars_to_string(&oiss);
        let oid_string = chars_to_string(&oid);
        let date = get_vaccination_date_tan(oid_string);
        rec.opaque_vaccination_month = date.0;
        rec.opaque_vaccination_year = date.1;
    }
    proof {
        assert(rec@ =~~= spec_parse(cert_id@));
    }
    rec
}

} // verus!
