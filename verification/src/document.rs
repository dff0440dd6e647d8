//! Document Parser: splits a document's whitespace-normalized text into
//! route segments on a fixed boundary, recovers each segment's route
//! metadata, legend and day-category token runs, and folds the records into
//! a per-document stop map.
//!
//! A segment whose structural anchors are absent contributes nothing; one
//! malformed segment never suppresses the rest of a document's records.

use crate::corpus::{entries_map_view, DocMap};
use crate::departure::{departure_of, parse_token, time_end, valid_token};
use crate::legend::{legend_of, resolve_legend, Legend};
use crate::normalize::{canon_dest, canonical_destination, correct_identifier, corrected_id};
use crate::text::{
    chars_of, digit, eq_at, find, find_from, is_digit_char, is_upper_char,
    lemma_find_from_bounds, matches_at, scan_token_end, scan_token_start, subvec, token_end,
    token_start, upper,
};
use crate::triage::{norm_ws, normalize_whitespace};
use crate::{recs_view, OperatingDays, RecordView, StopDetailsBus};
use vstd::prelude::*;

verus! {

/// The fixed organizational boundary between route segments.
pub open spec fn boundary() -> Seq<char> {
    "Organizator:ZPGSA, ul. Piastowska 19a, Tel: 74 832 87 78"@
}

/// Route metadata of one segment, in source order: line number, raw
/// destination, stop name, raw identifier. `None` on a structural mismatch.
pub open spec fn segment_fields(seg: Seq<char>) -> Option<
    (Seq<char>, Seq<char>, Seq<char>, Seq<char>),
> {
    match find_from(seg, "LINIA: "@, 0) {
        None => None,
        Some(l) => {
            let ln_start = l + "LINIA: "@.len();
            let ln_end = token_end(seg, ln_start);
            if ln_end == ln_start || !matches_at(seg, " KIERUNEK: "@, ln_end) {
                None
            } else {
                let dest_start = ln_end + " KIERUNEK: "@.len();
                match find_from(seg, " Przystanek: "@, dest_start + 1) {
                    None => None,
                    Some(p) => {
                        let ps_end = p + " Przystanek: "@.len();
                        match find_from(seg, " Czas"@, ps_end) {
                            None => None,
                            Some(c) => {
                                let id_start = token_start(seg, c);
                                if id_start < c && ps_end <= id_start - 1 {
                                    Some(
                                        (
                                            seg.subrange(ln_start, ln_end),
                                            seg.subrange(dest_start, p),
                                            seg.subrange(ps_end, id_start - 1),
                                            seg.subrange(id_start, c),
                                        ),
                                    )
                                } else {
                                    None
                                }
                            },
                        }
                    },
                }
            }
        },
    }
}

/// End of a time shape `H:MM` or `HH:MM` starting at `i`, when present.
pub open spec fn time_end_at(s: Seq<char>, i: int) -> Option<int> {
    if 0 <= i && i + 4 <= s.len() && digit(s[i]) && s[i + 1] == ':' && digit(s[i + 2]) && digit(
        s[i + 3],
    ) {
        Some(i + 4)
    } else if 0 <= i && i + 5 <= s.len() && digit(s[i]) && digit(s[i + 1]) && s[i + 2] == ':'
        && digit(s[i + 3]) && digit(s[i + 4]) {
        Some(i + 5)
    } else {
        None
    }
}

/// End of the run of at most three uppercase letters starting at `j`.
pub open spec fn upper3_end(s: Seq<char>, j: int) -> int {
    if !(0 <= j < s.len() && upper(s[j])) {
        j
    } else if !(j + 1 < s.len() && upper(s[j + 1])) {
        j + 1
    } else if !(j + 2 < s.len() && upper(s[j + 2])) {
        j + 2
    } else {
        j + 3
    }
}

/// The records of the greedy run of day-section tokens from `i`: each token
/// is one space, a time, then up to three uppercase letters.
pub open spec fn tokens_records(
    s: Seq<char>,
    i: int,
    legend: Map<char, Seq<char>>,
    dest: Seq<char>,
    line: Seq<char>,
    days: OperatingDays,
) -> Seq<RecordView>
    decreases s.len() - i,
{
    if 0 <= i < s.len() && s[i] == ' ' && time_end_at(s, i + 1) is Some {
        let te = time_end_at(s, i + 1)->0;
        let e = upper3_end(s, te);
        seq![departure_of(s.subrange(i + 1, e), legend, dest, line, days)] + tokens_records(
            s,
            e,
            legend,
            dest,
            line,
            days,
        )
    } else {
        Seq::empty()
    }
}

/// The records of one day-category section: every token after the section's
/// introductory phrase, parsed in order. No phrase, no records.
pub open spec fn day_records(
    seg: Seq<char>,
    anchor: Seq<char>,
    legend: Map<char, Seq<char>>,
    dest: Seq<char>,
    line: Seq<char>,
    days: OperatingDays,
) -> Seq<RecordView> {
    match find_from(seg, anchor, 0) {
        None => Seq::empty(),
        Some(d) => tokens_records(seg, d + anchor.len(), legend, dest, line, days),
    }
}

/// One segment's contribution: the corrected stop identifier and the
/// records of the three day categories, weekday then Saturday then Sunday.
pub open spec fn segment_result(seg: Seq<char>) -> Option<(Seq<char>, Seq<RecordView>)> {
    match segment_fields(seg) {
        None => None,
        Some(fields) => {
            let (line, dest_raw, stop, id_raw) = fields;
            let dest = canon_dest(dest_raw);
            let id = corrected_id(stop, dest, id_raw);
            let lg = legend_of(seg);
            Some(
                (
                    id,
                    day_records(seg, "Dni robocze"@, lg, dest, line, OperatingDays::MonFri)
                        + day_records(seg, "Soboty"@, lg, dest, line, OperatingDays::Saturday)
                        + day_records(
                        seg,
                        "Niedziele i święta"@,
                        lg,
                        dest,
                        line,
                        OperatingDays::Sunday,
                    ),
                ),
            )
        },
    }
}

/// Boundary-separated pieces of the text from `i` on; the final piece is
/// always present, possibly empty.
pub open spec fn split_segments(s: Seq<char>, i: int) -> Seq<Seq<char>>
    decreases s.len() - i,
    via split_segments_dec
{
    match find_from(s, boundary(), i) {
        None => seq![s.subrange(i, s.len() as int)],
        Some(b) => seq![s.subrange(i, b)] + split_segments(s, b + boundary().len()),
    }
}

#[via_fn]
proof fn split_segments_dec(s: Seq<char>, i: int) {
    reveal_strlit("Organizator:ZPGSA, ul. Piastowska 19a, Tel: 74 832 87 78");
    lemma_find_from_bounds(s, boundary(), i);
}

/// The contributions of a list of segments, in order.
pub open spec fn doc_entries(segs: Seq<Seq<char>>) -> Seq<(Seq<char>, Seq<RecordView>)>
    decreases segs.len(),
{
    if segs.len() == 0 {
        Seq::empty()
    } else {
        doc_entries(segs.drop_last()) + (match segment_result(segs.last()) {
            Some(e) => seq![e],
            None => Seq::empty(),
        })
    }
}

/// Document Parser, as a map: the stop map of one document's raw text. The
/// trailing piece of the boundary split is an artifact and contributes
/// nothing.
pub open spec fn doc_map_of(text: Seq<char>) -> Map<Seq<char>, Seq<RecordView>> {
    entries_map_view(doc_entries(split_segments(norm_ws(text), 0).drop_last()))
}

/// Parsing is a function of the document text alone: the same text always
/// yields the same stop map, so re-parsing a document replaces its entries
/// with identical ones.
pub proof fn lemma_parse_idempotent(t1: Seq<char>, t2: Seq<char>)
    requires
        t1 == t2,
    ensures
        doc_map_of(t1) == doc_map_of(t2),
{
}

/// The records of one day-category section of a segment.
fn day_section(
    seg: &Vec<char>,
    pat: &Vec<char>,
    lg: &Legend,
    dest: &Vec<char>,
    line: &Vec<char>,
    days: OperatingDays,
) -> (out: Vec<StopDetailsBus>)
    requires
        pat@.len() >= 1,
    ensures
        recs_view(out@) == day_records(seg@, pat@, lg@, dest@, line@, days),
{
    let mut out: Vec<StopDetailsBus> = Vec::new();
    let d = match find(seg, pat, 0) {
        None => {
            proof {
                assert(recs_view(out@) =~= Seq::<RecordView>::empty());
            }
            return out;
        },
        Some(d) => d,
    };
    let n = seg.len();
    proof {
        lemma_find_from_bounds(seg@, pat@, 0);
        assert(d + pat@.len() <= n);
    }
    let mut i: usize = d + pat.len();
    loop
        invariant
            i <= n,
            n == seg@.len(),
            recs_view(out@) + tokens_records(seg@, i as int, lg@, dest@, line@, days)
                == day_records(seg@, pat@, lg@, dest@, line@, days),
        ensures
            recs_view(out@) == day_records(seg@, pat@, lg@, dest@, line@, days),
        decreases n - i,
    {
        let mut fits = false;
        let mut te: usize = 0;
        if i < n && seg[i] == ' ' {
            if n - i > 4 && is_digit_char(seg[i + 1]) && seg[i + 2] == ':' && is_digit_char(
                seg[i + 3],
            ) && is_digit_char(seg[i + 4]) {
                fits = true;
                te = i + 5;
            } else if n - i > 5 && is_digit_char(seg[i + 1]) && is_digit_char(seg[i + 2]) && seg[i
                + 3] == ':' && is_digit_char(seg[i + 4]) && is_digit_char(seg[i + 5]) {
                fits = true;
                te = i + 6;
            }
        }
        if !fits {
            proof {
                assert(tokens_records(seg@, i as int, lg@, dest@, line@, days) =~= Seq::<
                    RecordView,
                >::empty());
                assert(recs_view(out@) + tokens_records(seg@, i as int, lg@, dest@, line@, days)
                    =~= recs_view(out@));
            }
            break ;
        }
        assert(time_end_at(seg@, i + 1) == Some(te as int));
        let mut e: usize = te;
        if e < n && is_upper_char(seg[e]) {
            e = e + 1;
            if e < n && is_upper_char(seg[e]) {
                e = e + 1;
                if e < n && is_upper_char(seg[e]) {
                    e = e + 1;
                }
            }
        }
        assert(e == upper3_end(seg@, te as int));
        let tok = subvec(seg, i + 1, e);
        proof {
            assert(valid_token(tok@)) by {
                assert(tok@.len() >= 4);
                assert(forall|k: int|
                    0 <= k < tok@.len() ==> tok@[k] == seg@[i + 1 + k]);
                assert(time_end(tok@) == Some((te - i - 1) as int)) by {
                    assert(digit(tok@[0]));
                }
                assert(forall|k: int|
                    te - i - 1 <= k < tok@.len() ==> upper(#[trigger] tok@[k]));
            }
        }
        let rec = match parse_token(&tok, lg, dest, line, days) {
            Some(rec) => rec,
            None => {
                proof {
                    assert(false);
                }
                vstd::pervasive::unreached()
            },
        };
        let ghost out_pre = out@;
        out.push(rec);
        proof {
            assert(tokens_records(seg@, i as int, lg@, dest@, line@, days) == seq![
                departure_of(tok@, lg@, dest@, line@, days),
            ] + tokens_records(seg@, e as int, lg@, dest@, line@, days));
            assert(recs_view(out@) =~= recs_view(out_pre).push(rec@));
            assert(recs_view(out_pre).push(rec@) + tokens_records(
                seg@,
                e as int,
                lg@,
                dest@,
                line@,
                days,
            ) =~= recs_view(out_pre) + (seq![rec@] + tokens_records(
                seg@,
                e as int,
                lg@,
                dest@,
                line@,
                days,
            )));
        }
        i = e;
    }
    out
}

/// Recovers one route segment's contribution; `None` on a structural
/// mismatch, which skips the segment and nothing else.
pub fn parse_segment(seg: &Vec<char>) -> (r: Option<(Vec<char>, Vec<StopDetailsBus>)>)
    ensures
        match r {
            Some(e) => segment_result(seg@) == Some((e.0@, recs_view(e.1@))),
            None => segment_result(seg@) is None,
        },
{
    let n = seg.len();
    proof {
        reveal_strlit("LINIA: ");
        reveal_strlit(" KIERUNEK: ");
        reveal_strlit(" Przystanek: ");
        reveal_strlit(" Czas");
        reveal_strlit("Dni robocze");
        reveal_strlit("Soboty");
        reveal_strlit("Niedziele i święta");
    }
    let a_linia = chars_of("LINIA: ");
    let l = match find(seg, &a_linia, 0) {
        None => {
            return None;
        },
        Some(l) => l,
    };
    proof {
        lemma_find_from_bounds(seg@, a_linia@, 0);
        assert(l + a_linia@.len() <= n);
    }
    let ln_start = l + a_linia.len();
    let ln_end = scan_token_end(seg, ln_start);
    if ln_end == ln_start {
        return None;
    }
    let a_kier = chars_of(" KIERUNEK: ");
    if n < a_kier.len() || ln_end > n - a_kier.len() {
        return None;
    }
    if !eq_at(seg, &a_kier, ln_end) {
        return None;
    }
    let dest_start = ln_end + a_kier.len();
    let a_przy = chars_of(" Przystanek: ");
    if dest_start >= n {
        return None;
    }
    let p = match find(seg, &a_przy, dest_start + 1) {
        None => {
            return None;
        },
        Some(p) => p,
    };
    proof {
        lemma_find_from_bounds(seg@, a_przy@, dest_start + 1);
        assert(p + a_przy@.len() <= n);
    }
    let ps_end = p + a_przy.len();
    let a_czas = chars_of(" Czas");
    let c = match find(seg, &a_czas, ps_end) {
        None => {
            return None;
        },
        Some(c) => c,
    };
    proof {
        lemma_find_from_bounds(seg@, a_czas@, ps_end as int);
    }
    let id_start = scan_token_start(seg, c);
    if id_start >= c {
        return None;
    }
    if id_start == 0 || ps_end > id_start - 1 {
        return None;
    }
    let line = subvec(seg, ln_start, ln_end);
    let dest_raw = subvec(seg, dest_start, p);
    let stop = subvec(seg, ps_end, id_start - 1);
    let id_raw = subvec(seg, id_start, c);
    let dest = canonical_destination(&dest_raw);
    let id = correct_identifier(&stop, &dest, &id_raw);
    let lg = resolve_legend(seg);
    let a_week = chars_of("Dni robocze");
    let a_sat = chars_of("Soboty");
    let a_sun = chars_of("Niedziele i święta");
    let mut recs = day_section(seg, &a_week, &lg, &dest, &line, OperatingDays::MonFri);
    let ghost w = recs@;
    let mut recs_sat = day_section(seg, &a_sat, &lg, &dest, &line, OperatingDays::Saturday);
    let ghost sa = recs_sat@;
    recs.append(&mut recs_sat);
    proof {
        assert(recs_view(recs@) =~= recs_view(w) + recs_view(sa));
    }
    let ghost ws = recs@;
    let mut recs_sun = day_section(seg, &a_sun, &lg, &dest, &line, OperatingDays::Sunday);
    let ghost su = recs_sun@;
    recs.append(&mut recs_sun);
    proof {
        assert(recs_view(recs@) =~= recs_view(ws) + recs_view(su));
    }
    Some((id, recs))
}

/// Document Parser: the stop map of one document's raw text.
pub fn parse_document(text: &str) -> (dm: DocMap)
    ensures
        dm@ == doc_map_of(text@),
{
    let cs = chars_of(text);
    let norm = normalize_whitespace(&cs);
    let n = norm.len();
    proof {
        reveal_strlit("Organizator:ZPGSA, ul. Piastowska 19a, Tel: 74 832 87 78");
    }
    let bnd = chars_of("Organizator:ZPGSA, ul. Piastowska 19a, Tel: 74 832 87 78");
    let mut dm = DocMap::new();
    let mut i: usize = 0;
    let ghost mut done: Seq<Seq<char>> = Seq::empty();
    proof {
        assert(Seq::<Seq<char>>::empty() + split_segments(norm@, 0) =~= split_segments(norm@, 0));
        assert(dm@ =~= entries_map_view(doc_entries(done)));
    }
    loop
        invariant
            i <= n,
            n == norm@.len(),
            norm@ == norm_ws(text@),
            bnd@ == boundary(),
            bnd@.len() >= 1,
            split_segments(norm@, 0) == done + split_segments(norm@, i as int),
            dm@ == entries_map_view(doc_entries(done)),
        ensures
            dm@ == doc_map_of(text@),
        decreases n - i,
    {
        let b = match find(&norm, &bnd, i) {
            None => {
                proof {
                    let full = split_segments(norm@, 0);
                    assert(split_segments(norm@, i as int) =~= seq![
                        norm@.subrange(i as int, n as int),
                    ]);
                    assert(full.drop_last() =~= done);
                }
                break ;
            },
            Some(b) => b,
        };
        proof {
            lemma_find_from_bounds(norm@, bnd@, i as int);
            assert(b + bnd@.len() <= n);
        }
        let seg = subvec(&norm, i, b);
        let ghost done_pre = done;
        let ghost dm_pre = dm@;
        match parse_segment(&seg) {
            Some(entry) => {
                let (id, recs) = entry;
                dm.add(id, recs);
            },
            None => {},
        }
        proof {
            done = done.push(seg@);
            assert(done.drop_last() =~= done_pre);
            assert(doc_entries(done) == doc_entries(done_pre) + (match segment_result(seg@) {
                Some(e) => seq![e],
                None => Seq::<(Seq<char>, Seq<RecordView>)>::empty(),
            }));
            match segment_result(seg@) {
                Some(e) => {
                    let de = doc_entries(done);
                    assert(de.drop_last() =~= doc_entries(done_pre));
                    assert(de.last() == e);
                },
                None => {
                    assert(doc_entries(done) =~= doc_entries(done_pre));
                },
            }
            assert(dm@ == entries_map_view(doc_entries(done)));
            assert(split_segments(norm@, i as int) == seq![norm@.subrange(i as int, b as int)]
                + split_segments(norm@, b + bnd@.len()));
            assert(done_pre + split_segments(norm@, i as int) =~= done + split_segments(
                norm@,
                b + bnd@.len(),
            ));
        }
        i = b + bnd.len();
    }
    dm
}

} // verus!
