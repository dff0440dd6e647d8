//! Canonicalization of destination names and correction of stop identifiers.
//!
//! The source documents spell some destinations inconsistently and reuse
//! placeholder identifiers for distinct stops; both tables below are
//! provider-specific knowledge applied verbatim.

use crate::text::{chars_of, eq_at, eq_str, subvec};
use vstd::prelude::*;

verus! {

/// `s` with one trailing out-of-service note removed, when present.
pub open spec fn strip_service_note(s: Seq<char>) -> Seq<char> {
    let suf = ". Nie kursuje"@;
    if s.len() >= suf.len() && s.subrange(s.len() - suf.len(), s.len() as int) == suf {
        s.subrange(0, s.len() - suf.len())
    } else {
        s
    }
}

/// The canonical form of a destination string: a trailing service note is
/// stripped, then known transcription variants are rewritten.
pub open spec fn canon_dest(s: Seq<char>) -> Seq<char> {
    let d = strip_service_note(s);
    if d == "Dzierżoniów Dzierżoniów dworzec  PKP"@ {
        "Dzierżoniów Dworzec PKP"@
    } else if d == "Dzierżoniów Dzierżoniów dworzec PKP"@ {
        "Dzierżoniów Dworzec PKP"@
    } else if d == "Dzierżoniów dworzec  PKP"@ {
        "Dzierżoniów Dworzec PKP"@
    } else if d == "Dzierżoniów dworzec PKP"@ {
        "Dzierżoniów Dworzec PKP"@
    } else if d == "Niemcza dworzec PKP"@ {
        "Niemcza Dworzec PKP"@
    } else if d == "Jodłownik Jodłownik"@ {
        "Jodłownik"@
    } else if d == "Dzierżoniów  Staszica. Nie kursuje"@ {
        "Dzierżoniów Staszica"@
    } else if d == "Byszów 221/81"@ || d == "Byszów 221"@ || d == "Byszów 221. Nie kursuje"@ {
        "Byszów 221"@
    } else if d == "Owiesno Kościół. Nie kursuje"@ {
        "Owiesno Kościół"@
    } else if d == "Dzierżoniów dworzec PKP. Nie kursuje"@ {
        "Dzierżoniów dworzec PKP"@
    } else if d == "Bielawa Camping Sudety. Nie kursuje"@ {
        "Bielawa Camping Sudety"@
    } else {
        d
    }
}

/// Destination Normalizer: canonicalizes a destination-name string.
pub fn canonical_destination(d: &Vec<char>) -> (r: Vec<char>)
    ensures
        r@ == canon_dest(d@),
{
    let suf = chars_of(". Nie kursuje");
    let base = if d.len() >= suf.len() && eq_at(d, &suf, d.len() - suf.len()) {
        subvec(d, 0, d.len() - suf.len())
    } else {
        proof {
            assert(d@.subrange(0, d@.len() as int) =~= d@);
        }
        subvec(d, 0, d.len())
    };
    assert(base@ == strip_service_note(d@));
    if eq_str(&base, "Dzierżoniów Dzierżoniów dworzec  PKP") {
        chars_of("Dzierżoniów Dworzec PKP")
    } else if eq_str(&base, "Dzierżoniów Dzierżoniów dworzec PKP") {
        chars_of("Dzierżoniów Dworzec PKP")
    } else if eq_str(&base, "Dzierżoniów dworzec  PKP") {
        chars_of("Dzierżoniów Dworzec PKP")
    } else if eq_str(&base, "Dzierżoniów dworzec PKP") {
        chars_of("Dzierżoniów Dworzec PKP")
    } else if eq_str(&base, "Niemcza dworzec PKP") {
        chars_of("Niemcza Dworzec PKP")
    } else if eq_str(&base, "Jodłownik Jodłownik") {
        chars_of("Jodłownik")
    } else if eq_str(&base, "Dzierżoniów  Staszica. Nie kursuje") {
        chars_of("Dzierżoniów Staszica")
    } else if eq_str(&base, "Byszów 221/81") || eq_str(&base, "Byszów 221") || eq_str(
        &base,
        "Byszów 221. Nie kursuje",
    ) {
        chars_of("Byszów 221")
    } else if eq_str(&base, "Owiesno Kościół. Nie kursuje") {
        chars_of("Owiesno Kościół")
    } else if eq_str(&base, "Dzierżoniów dworzec PKP. Nie kursuje") {
        chars_of("Dzierżoniów dworzec PKP")
    } else if eq_str(&base, "Bielawa Camping Sudety. Nie kursuje") {
        chars_of("Bielawa Camping Sudety")
    } else {
        base
    }
}

/// The corrected stop identifier: ambiguous raw identifiers are
/// disambiguated by stop name or canonical destination.
pub open spec fn corrected_id(stop: Seq<char>, dest: Seq<char>, id: Seq<char>) -> Seq<char> {
    let id1 = if stop == "Jędrzejowice"@ {
        "5001"@
    } else {
        id
    };
    if id1 == "337-338"@ {
        if dest == "Dzierżoniów Piłsudskiego"@ {
            "338"@
        } else if dest == "Książnica 27"@ {
            "337"@
        } else {
            id1
        }
    } else if id1 == "221"@ {
        if dest == "Dobrocin Szkoła"@ {
            "5005"@
        } else {
            id1
        }
    } else if id1 == "Handlowy"@ {
        "5002"@
    } else if id1 == "Szkoła"@ {
        "5006"@
    } else if id1 == "284."@ {
        "284"@
    } else if id1 == "45."@ {
        "45"@
    } else if id1 == "I"@ {
        "5009"@
    } else if id1 == "Kościół"@ {
        "5011"@
    } else if id1 == "51,53"@ {
        "51"@
    } else if id1 == "999"@ {
        "84"@
    } else if id1 == "14-15"@ {
        "14"@
    } else if id1 == "352-353"@ {
        "352"@
    } else if id1 == "(hotel)"@ {
        "6000"@
    } else {
        id1
    }
}

/// Resolves the StopIdentifier for one route segment.
pub fn correct_identifier(stop: &Vec<char>, dest: &Vec<char>, id: &Vec<char>) -> (r: Vec<char>)
    ensures
        r@ == corrected_id(stop@, dest@, id@),
{
    let id1 = if eq_str(stop, "Jędrzejowice") {
        chars_of("5001")
    } else {
        proof {
            assert(id@.subrange(0, id@.len() as int) =~= id@);
        }
        subvec(id, 0, id.len())
    };
    if eq_str(&id1, "337-338") {
        if eq_str(dest, "Dzierżoniów Piłsudskiego") {
            chars_of("338")
        } else if eq_str(dest, "Książnica 27") {
            chars_of("337")
        } else {
            id1
        }
    } else if eq_str(&id1, "221") {
        if eq_str(dest, "Dobrocin Szkoła") {
            chars_of("5005")
        } else {
            id1
        }
    } else if eq_str(&id1, "Handlowy") {
        chars_of("5002")
    } else if eq_str(&id1, "Szkoła") {
        chars_of("5006")
    } else if eq_str(&id1, "284.") {
        chars_of("284")
    } else if eq_str(&id1, "45.") {
        chars_of("45")
    } else if eq_str(&id1, "I") {
        chars_of("5009")
    } else if eq_str(&id1, "Kościół") {
        chars_of("5011")
    } else if eq_str(&id1, "51,53") {
        chars_of("51")
    } else if eq_str(&id1, "999") {
        chars_of("84")
    } else if eq_str(&id1, "14-15") {
        chars_of("14")
    } else if eq_str(&id1, "352-353") {
        chars_of("352")
    } else if eq_str(&id1, "(hotel)") {
        chars_of("6000")
    } else {
        id1
    }
}

} // verus!
