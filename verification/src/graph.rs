//! Graph-statement export of parsed records, for Swedish EHM-issued
//! identifiers only. Each matching record yields five `CREATE`
//! statements; a batch export concatenates the statements of all
//! identifiers and removes duplicate lines, keeping first occurrences.

use vstd::prelude::*;
use vstd::string::{StrSliceExecFns, StringExecFns};
use crate::parser::{parse, spec_parse};
use crate::record::{Uvci, UvciModel};
use crate::text::{chars_to_string, extend_chars, lemma_deep_index, spec_dec, split_chars,
    split_on, str_chars, str_eq, subvec, u64_to_string, vec_eq};

verus! {

/// Three-letter month abbreviation; `Unknown` outside 1 to 12.
pub open spec fn spec_month_name(m: nat) -> Seq<char> {
    if m == 1 {
        "Jan"@
    } else if m == 2 {
        "Feb"@
    } else if m == 3 {
        "Mar"@
    } else if m == 4 {
        "Apr"@
    } else if m == 5 {
        "May"@
    } else if m == 6 {
        "Jun"@
    } else if m == 7 {
        "Jul"@
    } else if m == 8 {
        "Aug"@
    } else if m == 9 {
        "Sep"@
    } else if m == 10 {
        "Oct"@
    } else if m == 11 {
        "Nov"@
    } else if m == 12 {
        "Dec"@
    } else {
        "Unknown"@
    }
}

/// Whether a record matches the Swedish national pattern: version 1,
/// country `SE`, issuer `EHM`, schema option 3 and a thirteen-character
/// opaque payload.
pub open spec fn spec_is_national(m: UvciModel) -> bool {
    m.version == 1 && m.country == "SE"@ && m.issuing_entity == "EHM"@ && m.schema_option_number
        == 3 && m.opaque_unique_string.len() == 13
}

/// Node identifier of the vaccination-date node: `d`, then the year,
/// then the month, with no separator.
pub open spec fn spec_date_name(m: UvciModel) -> Seq<char> {
    "d"@ + spec_dec(m.opaque_vaccination_year) + spec_dec(m.opaque_vaccination_month)
}

/// The five graph statements for a record, each on its own line; empty
/// for a record outside the national pattern.
pub open spec fn spec_to_graph(m: UvciModel) -> Seq<char> {
    if !spec_is_national(m) {
        Seq::<char>::empty()
    } else {
        "CREATE ("@ + m.country + ":country {name:'"@ + "Sweden"@ + "'})-[:COUNTRY_OF {}]->("@
            + m.issuing_entity + ":issuing_entity {name:'"@ + "E-Hälso Myndigheten"@ + "'})\n"@
            + "CREATE ("@ + m.issuing_entity + ")-[:ISSUER_OF {}]->("@ + m.opaque_id
            + ":opaque_id {name:'"@ + m.opaque_id + "'})\n"@ + "CREATE ("@ + spec_date_name(m)
            + ":vac_date {name:'"@ + spec_month_name(m.opaque_vaccination_month) + " "@
            + spec_dec(m.opaque_vaccination_year) + "'})\n"@ + "CREATE ("@ + spec_date_name(m)
            + ")-[:VAC_DATE_OF {}]->("@ + m.opaque_id + ")\n"@ + "CREATE ("@
            + m.opaque_unique_string + ":reissue_id {name:'"@ + m.opaque_issuance
            + "'})-[:REISSUE_OF {}]->("@ + m.opaque_id + ")\n"@
    }
}

/// Renders the month abbreviation of a month number.
fn month_name(m: u8) -> (r: String)
    ensures
        r@ == spec_month_name(m as nat),
{
    match m {
        1 => String::from_str("Jan"),
        2 => String::from_str("Feb"),
        3 => String::from_str("Mar"),
        4 => String::from_str("Apr"),
        5 => String::from_str("May"),
        6 => String::from_str("Jun"),
        7 => String::from_str("Jul"),
        8 => String::from_str("Aug"),
        9 => String::from_str("Sep"),
        10 => String::from_str("Oct"),
        11 => String::from_str("Nov"),
        12 => String::from_str("Dec"),
        _ => String::from_str("Unknown"),
    }
}

/// Renders a parsed record as its graph statements.
pub fn to_graph(uvci_data: Uvci) -> (r: String)
    ensures
        r@ == spec_to_graph(uvci_data@),
{
    let national = uvci_data.version == 1 && str_eq(uvci_data.country.as_str(), "SE") && str_eq(
        uvci_data.issuing_entity.as_str(),
        "EHM",
    ) && uvci_data.schema_option_number == 3 && uvci_data.opaque_unique_string.as_str().unicode_len()
        == 13;
    if !national {
        return String::new();
    }
    let mut date_name = String::from_str("d");
    let year = u64_to_string(uvci_data.opaque_vaccination_year as u64);
    date_name.append(year.as_str());
    let month = u64_to_string(uvci_data.opaque_vaccination_month as u64);
    date_name.append(month.as_str());
    proof {
        assert(date_name@ =~= spec_date_name(uvci_data@));
    }
    let mname = month_name(uvci_data.opaque_vaccination_month);

    let mut out = String::new();
    out.append("CREATE (");
    out.append(uvci_data.country.as_str());
    out.append(":country {name:'");
    out.append("Sweden");
    out.append("'})-[:COUNTRY_OF {}]->(");
    out.append(uvci_data.issuing_entity.as_str());
    out.append(":issuing_entity {name:'");
    out.append("E-Hälso Myndigheten");
    out.append("'})\n");
    out.append("CREATE (");
    out.append(uvci_data.issuing_entity.as_str());
    out.append(")-[:ISSUER_OF {}]->(");
    out.append(uvci_data.opaque_id.as_str());
    out.append(":opaque_id {name:'");
    out.append(uvci_data.opaque_id.as_str());
    out.append("'})\n");
    out.append("CREATE (");
    out.append(date_name.as_str());
    out.append(":vac_date {name:'");
    out.append(mname.as_str());
    out.append(" ");
    out.append(year.as_str());
    out.append("'})\n");
    out.append("CREATE (");
    out.append(date_name.as_str());
    out.append(")-[:VAC_DATE_OF {}]->(");
    out.append(uvci_data.opaque_id.as_str());
    out.append(")\n");
    out.append("CREATE (");
    out.append(uvci_data.opaque_unique_string.as_str());
    out.append(":reissue_id {name:'");
    out.append(uvci_data.opaque_issuance.as_str());
    out.append("'})-[:REISSUE_OF {}]->(");
    out.append(uvci_data.opaque_id.as_str());
    out.append(")\n");
    proof {
        assert(out@ =~= spec_to_graph(uvci_data@));
    }
    out
}

/// Parses an identifier and renders the record's graph statements.
pub fn uvci_to_graph(cert_id: &str) -> (r: String)
    ensures
        r@ == spec_to_graph(spec_parse(cert_id@)),
{
    to_graph(parse(cert_id))
}

/// The graph statements of a whole identifier list, concatenated in
/// list order.
pub open spec fn spec_graphs_concat(ids: Seq<Seq<char>>) -> Seq<char>
    decreases ids.len(),
{
    if ids.len() == 0 {
        Seq::<char>::empty()
    } else {
        spec_graphs_concat(ids.drop_last()) + spec_to_graph(spec_parse(ids.last()))
    }
}

/// First-occurrence de-duplication: an entry stays when it differs from
/// every earlier entry.
pub open spec fn spec_dedup(s: Seq<Seq<char>>) -> Seq<Seq<char>>
    decreases s.len(),
{
    if s.len() == 0 {
        Seq::<Seq<char>>::empty()
    } else {
        let rest = spec_dedup(s.drop_last());
        if s.drop_last().contains(s.last()) {
            rest
        } else {
            rest.push(s.last())
        }
    }
}

/// The pieces joined without a separator.
pub open spec fn spec_concat_pieces(s: Seq<Seq<char>>) -> Seq<char>
    decreases s.len(),
{
    if s.len() == 0 {
        Seq::<char>::empty()
    } else {
        spec_concat_pieces(s.drop_last()) + s.last()
    }
}

/// Every occurrence of `CREATE` preceded by a fresh line break:
/// a left-to-right scan replacing each non-overlapping match.
pub open spec fn spec_replace_create(s: Seq<char>) -> Seq<char>
    decreases s.len(),
{
    if s.len() >= 6 && s.take(6) == "CREATE"@ {
        "\nCREATE"@ + spec_replace_create(s.skip(6))
    } else if s.len() == 0 {
        Seq::<char>::empty()
    } else {
        seq![s[0]] + spec_replace_create(s.drop_first())
    }
}

/// The de-duplicated statement lines of a batch export.
pub open spec fn spec_graph_lines(ids: Seq<Seq<char>>) -> Seq<Seq<char>> {
    spec_dedup(split_on(spec_graphs_concat(ids), '\n'))
}

/// The combined text of a batch export: the statements of every
/// identifier, split into lines, de-duplicated keeping first
/// occurrences, joined, and re-broken so each `CREATE` starts a line.
pub open spec fn spec_uvcis_to_graph(ids: Seq<Seq<char>>) -> Seq<char> {
    spec_replace_create(spec_concat_pieces(spec_graph_lines(ids)))
}

/// Whether one of the pieces is `x`.
fn contains_piece(r: &Vec<Vec<char>>, x: &Vec<char>) -> (b: bool)
    ensures
        b == r.deep_view().contains(x@),
{
    let mut j: usize = 0;
    while j < r.len()
        invariant
            j <= r@.len(),
            forall|k: int| 0 <= k < j ==> r.deep_view()[k] != x@,
        decreases r@.len() - j,
    {
        proof {
            lemma_deep_index(r, j as int);
        }
        if vec_eq(&r[j], x) {
            proof {
                assert(r.deep_view().contains(x@)) by {
                    assert(r.deep_view()[j as int] == x@);
                }
            }
            return true;
        }
        j += 1;
    }
    proof {
        if r.deep_view().contains(x@) {
            let k = choose|k: int| 0 <= k < r.deep_view().len() && r.deep_view()[k] == x@;
            assert(false);
        }
    }
    false
}

/// De-duplication keeps exactly the entries that occur in the input.
pub proof fn lemma_dedup_membership(s: Seq<Seq<char>>, x: Seq<char>)
    ensures
        spec_dedup(s).contains(x) == s.contains(x),
    decreases s.len(),
{
    if s.len() == 0 {
        assert(!s.contains(x));
        assert(!spec_dedup(s).contains(x));
    } else {
        lemma_dedup_membership(s.drop_last(), x);
        let rest = spec_dedup(s.drop_last());
        assert(s.contains(x) == (s.drop_last().contains(x) || x == s.last())) by {
            if s.drop_last().contains(x) {
                let k = choose|k: int|
                    0 <= k < s.drop_last().len() && s.drop_last()[k] == x;
                assert(s[k] == x);
                assert(s.contains(x));
            }
            if x == s.last() {
                assert(s[s.len() - 1] == x);
                assert(s.contains(x));
            }
            if s.contains(x) && x != s.last() {
                let k = choose|k: int| 0 <= k < s.len() && s[k] == x;
                assert(s.drop_last()[k] == x);
                assert(s.drop_last().contains(x));
            }
        }
        if !s.drop_last().contains(s.last()) {
            assert(rest.push(s.last()).contains(x) == (rest.contains(x) || x == s.last())) by {
                if rest.contains(x) {
                    let k = choose|k: int| 0 <= k < rest.len() && rest[k] == x;
                    assert(rest.push(s.last())[k] == x);
                    assert(rest.push(s.last()).contains(x));
                }
                if x == s.last() {
                    assert(rest.push(s.last())[rest.len() as int] == x);
                    assert(rest.push(s.last()).contains(x));
                }
                if rest.push(s.last()).contains(x) && x != s.last() {
                    let k = choose|k: int|
                        0 <= k < rest.push(s.last()).len() && rest.push(s.last())[k] == x;
                    assert(rest[k] == x);
                    assert(rest.contains(x));
                }
            }
        }
    }
}

/// De-duplication leaves no two equal entries.
pub proof fn lemma_dedup_distinct(s: Seq<Seq<char>>)
    ensures
        forall|i: int, j: int|
            0 <= i < j < spec_dedup(s).len() ==> spec_dedup(s)[i] != spec_dedup(s)[j],
    decreases s.len(),
{
    if s.len() > 0 {
        lemma_dedup_distinct(s.drop_last());
        let rest = spec_dedup(s.drop_last());
        if !s.drop_last().contains(s.last()) {
            lemma_dedup_membership(s.drop_last(), s.last());
            assert(!rest.contains(s.last()));
            let d = rest.push(s.last());
            assert forall|i: int, j: int| 0 <= i < j < d.len() implies d[i] != d[j] by {
                if j < d.len() - 1 {
                    assert(d[i] == rest[i] && d[j] == rest[j]);
                } else {
                    assert(d[j] == s.last());
                    assert(d[i] == rest[i]);
                    if d[i] == s.last() {
                        assert(rest.contains(s.last())) by {
                            assert(rest[i] == s.last());
                        }
                        assert(false);
                    }
                }
            }
        }
    }
}

/// The batch graph export never carries a statement line twice: its
/// de-duplicated line sequence is pairwise distinct, whatever the
/// identifier list holds and however often entries repeat in it.
pub proof fn lemma_graph_lines_distinct(ids: Seq<Seq<char>>)
    ensures
        forall|i: int, j: int|
            0 <= i < j < spec_graph_lines(ids).len() ==> spec_graph_lines(ids)[i]
                != spec_graph_lines(ids)[j],
{
    lemma_dedup_distinct(split_on(spec_graphs_concat(ids), '\n'));
}

/// Appending entries that all occur in the front part changes nothing:
/// de-duplication keeps first occurrences only.
proof fn lemma_dedup_absorb(s: Seq<Seq<char>>, t: Seq<Seq<char>>)
    requires
        forall|k: int| 0 <= k < t.len() ==> s.contains(t[k]),
    ensures
        spec_dedup(s + t) == spec_dedup(s),
    decreases t.len(),
{
    if t.len() == 0 {
        assert(s + t =~= s);
    } else {
        assert((s + t).drop_last() =~= s + t.drop_last());
        assert((s + t).last() == t.last());
        assert((s + t.drop_last()).contains(t.last())) by {
            assert(s.contains(t[t.len() - 1]));
            let j = choose|j: int| 0 <= j < s.len() && s[j] == t.last();
            assert((s + t.drop_last())[j] == t.last());
        }
        lemma_dedup_absorb(s, t.drop_last());
    }
}

/// The statements of a concatenated identifier list are the
/// concatenated statements.
proof fn lemma_graphs_concat_add(a: Seq<Seq<char>>, b: Seq<Seq<char>>)
    ensures
        spec_graphs_concat(a + b) == spec_graphs_concat(a) + spec_graphs_concat(b),
    decreases b.len(),
{
    if b.len() == 0 {
        assert(a + b =~= a);
        assert(spec_graphs_concat(a) + spec_graphs_concat(b) =~= spec_graphs_concat(a));
    } else {
        assert((a + b).drop_last() =~= a + b.drop_last());
        assert((a + b).last() == b.last());
        lemma_graphs_concat_add(a, b.drop_last());
        assert(spec_graphs_concat(a) + spec_graphs_concat(b.drop_last()) + spec_to_graph(
            spec_parse(b.last()),
        ) =~= spec_graphs_concat(a) + spec_graphs_concat(b));
    }
}

/// A record's statements are empty or end with a line break.
proof fn lemma_to_graph_nl(m: UvciModel)
    ensures
        spec_to_graph(m).len() == 0 || spec_to_graph(m).last() == '\n',
{
    reveal_strlit(")\n");
    if spec_is_national(m) {
        assert(")\n"@.len() == 2);
        assert(spec_to_graph(m).last() == ")\n"@[1]);
    }
}

/// The statements of a whole list are empty or end with a line break.
proof fn lemma_graphs_concat_nl(ids: Seq<Seq<char>>)
    ensures
        spec_graphs_concat(ids).len() == 0 || spec_graphs_concat(ids).last() == '\n',
    decreases ids.len(),
{
    if ids.len() > 0 {
        lemma_graphs_concat_nl(ids.drop_last());
        lemma_to_graph_nl(spec_parse(ids.last()));
        let g = spec_to_graph(spec_parse(ids.last()));
        if g.len() == 0 {
            assert(spec_graphs_concat(ids) =~= spec_graphs_concat(ids.drop_last()));
        }
    }
}

/// Splitting a concatenation whose front part is empty or ends with the
/// line break: the front's trailing empty piece merges with the back's
/// first piece.
proof fn lemma_split_concat_nl(a: Seq<char>, b: Seq<char>)
    requires
        a.len() == 0 || a.last() == '\n',
    ensures
        split_on(a + b, '\n') == split_on(a, '\n').drop_last() + split_on(b, '\n'),
    decreases b.len(),
{
    crate::text::lemma_split_on_len(a, '\n');
    crate::text::lemma_split_on_len(b, '\n');
    if b.len() == 0 {
        assert(a + b =~= a);
        if a.len() == 0 {
            assert(split_on(a, '\n').drop_last() + split_on(b, '\n') =~= split_on(a, '\n'));
        } else {
            assert(split_on(a, '\n') == split_on(a.drop_last(), '\n').push(Seq::<char>::empty()));
            assert(split_on(a, '\n').drop_last() + split_on(b, '\n') =~= split_on(a, '\n'));
        }
    } else {
        assert((a + b).drop_last() =~= a + b.drop_last());
        assert((a + b).last() == b.last());
        lemma_split_concat_nl(a, b.drop_last());
        crate::text::lemma_split_on_len(b.drop_last(), '\n');
        let x = split_on(a, '\n').drop_last();
        let y = split_on(b.drop_last(), '\n');
        if b.last() == '\n' {
            assert(split_on(a + b, '\n') =~= x + split_on(b, '\n')) by {
                assert(split_on(a + b, '\n') == (x + y).push(Seq::<char>::empty()));
                assert(split_on(b, '\n') == y.push(Seq::<char>::empty()));
                assert((x + y).push(Seq::<char>::empty()) =~= x + y.push(Seq::<char>::empty()));
            }
        } else {
            assert(split_on(a + b, '\n') =~= x + split_on(b, '\n')) by {
                assert((x + y).last() == y.last());
                assert(split_on(a + b, '\n') == (x + y).update(
                    x.len() + y.len() - 1,
                    y.last().push(b.last()),
                ));
                assert(split_on(b, '\n') == y.update(y.len() - 1, y.last().push(b.last())));
                assert((x + y).update(x.len() + y.len() - 1, y.last().push(b.last())) =~= x
                    + y.update(y.len() - 1, y.last().push(b.last())));
            }
        }
    }
}

/// Law: exporting an identifier list twice over — the list concatenated
/// with itself — produces exactly the text of exporting it once: every
/// statement line of the repetition is a duplicate and is removed.
pub proof fn lemma_graph_export_double(ids: Seq<Seq<char>>)
    ensures
        spec_uvcis_to_graph(ids + ids) == spec_uvcis_to_graph(ids),
{
    let g = spec_graphs_concat(ids);
    lemma_graphs_concat_add(ids, ids);
    lemma_graphs_concat_nl(ids);
    lemma_split_concat_nl(g, g);
    crate::text::lemma_split_on_len(g, '\n');
    let lines = split_on(g, '\n');
    let front = lines.drop_last();
    let e = lines.last();
    assert(split_on(g + g, '\n') == front + lines);
    assert(front + lines =~= (front + front).push(e)) by {
        assert(lines =~= front.push(e));
    }
    assert(((front + front).push(e)).drop_last() =~= front + front);
    assert(((front + front).push(e)).last() == e);
    assert((front + front).contains(e) == front.contains(e)) by {
        if front.contains(e) {
            let j = choose|j: int| 0 <= j < front.len() && front[j] == e;
            assert((front + front)[j] == e);
        }
        if (front + front).contains(e) {
            let j = choose|j: int| 0 <= j < (front + front).len() && (front + front)[j] == e;
            if j < front.len() {
                assert(front[j] == e);
            } else {
                assert(front[j - front.len()] == e);
            }
        }
    }
    assert(forall|k: int| 0 <= k < front.len() ==> front.contains(front[k]));
    lemma_dedup_absorb(front, front);
    assert(lines =~= front.push(e));
    assert(lines.drop_last() =~= front);
    assert(spec_dedup(split_on(g + g, '\n')) == spec_dedup(lines));
    assert(spec_graph_lines(ids + ids) == spec_graph_lines(ids));
}

/// De-duplicates the pieces, keeping first occurrences.
fn dedup_pieces(v: &Vec<Vec<char>>) -> (r: Vec<Vec<char>>)
    ensures
        r.deep_view() == spec_dedup(v.deep_view()),
{
    let mut r: Vec<Vec<char>> = Vec::new();
    let mut i: usize = 0;
    proof {
        assert(v.deep_view().take(0) =~= Seq::<Seq<char>>::empty());
        assert(r.deep_view() =~~= spec_dedup(v.deep_view().take(0)));
    }
    while i < v.len()
        invariant
            i <= v@.len(),
            v.deep_view().len() == v@.len(),
            r.deep_view() =~~= spec_dedup(v.deep_view().take(i as int)),
        decreases v@.len() - i,
    {
        proof {
            assert(v.deep_view().take(i + 1).drop_last() =~= v.deep_view().take(i as int));
            assert(v.deep_view().take(i + 1).last() == v.deep_view()[i as int]);
            lemma_deep_index(v, i as int);
        }
        let present = contains_piece(&r, &v[i]);
        proof {
            lemma_dedup_membership(v.deep_view().take(i as int), v.deep_view()[i as int]);
        }
        if !present {
            let ghost old_deep = r.deep_view();
            let piece = subvec(&v[i], 0, v[i].len());
            proof {
                assert(piece@ =~= v@[i as int]@);
            }
            r.push(piece);
            proof {
                assert(r.deep_view() =~~= old_deep.push(v@[i as int]@));
            }
        }
        i += 1;
        proof {
            assert(r.deep_view() =~~= spec_dedup(v.deep_view().take(i as int)));
        }
    }
    proof {
        assert(v.deep_view().take(v@.len() as int) =~= v.deep_view());
    }
    r
}

/// Joins the pieces without a separator.
fn concat_pieces(v: &Vec<Vec<char>>) -> (r: Vec<char>)
    ensures
        r@ == spec_concat_pieces(v.deep_view()),
{
    let mut r: Vec<char> = Vec::new();
    let mut i: usize = 0;
    proof {
        assert(v.deep_view().take(0) =~= Seq::<Seq<char>>::empty());
    }
    while i < v.len()
        invariant
            i <= v@.len(),
            v.deep_view().len() == v@.len(),
            r@ =~= spec_concat_pieces(v.deep_view().take(i as int)),
        decreases v@.len() - i,
    {
        proof {
            assert(v.deep_view().take(i + 1).drop_last() =~= v.deep_view().take(i as int));
            assert(v.deep_view().take(i + 1).last() == v.deep_view()[i as int]);
            lemma_deep_index(v, i as int);
        }
        extend_chars(&mut r, &v[i]);
        i += 1;
        proof {
            assert(r@ =~= spec_concat_pieces(v.deep_view().take(i as int)));
        }
    }
    proof {
        assert(v.deep_view().take(v@.len() as int) =~= v.deep_view());
    }
    r
}

/// Breaks the text so that every `CREATE` starts on a fresh line.
fn replace_create(v: &Vec<char>) -> (r: Vec<char>)
    ensures
        r@ == spec_replace_create(v@),
{
    let mut r: Vec<char> = Vec::new();
    let mut i: usize = 0;
    proof {
        assert(v@.skip(0) =~= v@);
    }
    while i < v.len()
        invariant
            i <= v@.len(),
            r@ + spec_replace_create(v@.skip(i as int)) =~= spec_replace_create(v@),
        decreases v@.len() - i,
    {
        let is_create = v.len() - i >= 6 && v[i] == 'C' && v[i + 1] == 'R' && v[i + 2] == 'E' && v[i
            + 3] == 'A' && v[i + 4] == 'T' && v[i + 5] == 'E';
        proof {
            reveal_strlit("CREATE");
            reveal_strlit("\nCREATE");
            let s = v@.skip(i as int);
            if is_create {
                assert(s.take(6) =~= "CREATE"@);
                assert(s.skip(6) =~= v@.skip(i + 6));
            } else {
                if s.len() >= 6 && s.take(6) == "CREATE"@ {
                    assert(v@[i as int] == s.take(6)[0]);
                    assert(v@[i + 1] == s.take(6)[1]);
                    assert(v@[i + 2] == s.take(6)[2]);
                    assert(v@[i + 3] == s.take(6)[3]);
                    assert(v@[i + 4] == s.take(6)[4]);
                    assert(v@[i + 5] == s.take(6)[5]);
                    assert(false);
                }
                assert(s.drop_first() =~= v@.skip(i + 1));
                assert(s[0] == v@[i as int]);
            }
        }
        if is_create {
            let ghost old_r = r@;
            r.push('\n');
            r.push('C');
            r.push('R');
            r.push('E');
            r.push('A');
            r.push('T');
            r.push('E');
            i += 6;
            proof {
                reveal_strlit("\nCREATE");
                assert(r@ =~= old_r + "\nCREATE"@);
                assert(r@ + spec_replace_create(v@.skip(i as int)) =~= spec_replace_create(v@));
            }
        } else {
            r.push(v[i]);
            i += 1;
            proof {
                assert(r@ + spec_replace_create(v@.skip(i as int)) =~= spec_replace_create(v@));
            }
        }
    }
    proof {
        assert(v@.skip(v@.len() as int) =~= Seq::<char>::empty());
        assert(r@ =~= spec_replace_create(v@));
    }
    r
}

/// Renders the graph statements of every identifier of the list, with
/// duplicate statement lines removed (first occurrences kept).
pub fn uvcis_to_graph(cert_ids: &Vec<String>) -> (r: String)
    ensures
        r@ == spec_uvcis_to_graph(cert_ids.deep_view()),
{
    let mut all: Vec<char> = Vec::new();
    let mut i: usize = 0;
    proof {
        assert(cert_ids.deep_view().take(0) =~= Seq::<Seq<char>>::empty());
    }
    while i < cert_ids.len()
        invariant
            i <= cert_ids@.len(),
            cert_ids.deep_view().len() == cert_ids@.len(),
            all@ =~= spec_graphs_concat(cert_ids.deep_view().take(i as int)),
        decreases cert_ids@.len() - i,
    {
        proof {
            assert(cert_ids.deep_view().take(i + 1).drop_last() =~= cert_ids.deep_view().take(
                i as int,
            ));
            assert(cert_ids.deep_view().take(i + 1).last() == cert_ids.deep_view()[i as int]);
            assert(cert_ids.deep_view()[i as int] == cert_ids@[i as int]@);
        }
        let g = uvci_to_graph(cert_ids[i].as_str());
        let gc = str_chars(g.as_str());
        extend_chars(&mut all, &gc);
        i += 1;
        proof {
            assert(all@ =~= spec_graphs_concat(cert_ids.deep_view().take(i as int)));
        }
    }
    proof {
        assert(cert_ids.deep_view().take(cert_ids@.len() as int) =~= cert_ids.deep_view());
    }
    let lines = split_chars(&all, '\n');
    let uniq = dedup_pieces(&lines);
    let joined = concat_pieces(&uniq);
    let replaced = replace_create(&joined);
    chars_to_string(&replaced)
}

} // verus!
