//! Departure Parser: one time token plus its context makes one structured
//! departure record.
//!
//! A token is `H:MM` or `HH:MM` followed by zero or more uppercase suffix
//! letters. The first suffix letter may select an alternate destination
//! through the legend; the last decides the school-calendar restriction.

use crate::legend::Legend;
use crate::normalize::{canon_dest, canonical_destination};
use crate::text::{digit, dup, is_digit_char, is_upper_char, subvec, upper};
use crate::{OperatingDays, RecordView, SchoolRestriction, StopDetailsBus};
use vstd::prelude::*;

verus! {

/// Index just past the `H:MM` or `HH:MM` prefix of a token, when present.
pub open spec fn time_end(t: Seq<char>) -> Option<int> {
    if t.len() >= 4 && digit(t[0]) && t[1] == ':' && digit(t[2]) && digit(t[3]) {
        Some(4int)
    } else if t.len() >= 5 && digit(t[0]) && digit(t[1]) && t[2] == ':' && digit(t[3]) && digit(
        t[4],
    ) {
        Some(5int)
    } else {
        None
    }
}

/// A well-shaped token: a time, then nothing but uppercase suffix letters.
pub open spec fn valid_token(t: Seq<char>) -> bool {
    &&& time_end(t) is Some
    &&& forall|k: int| time_end(t)->0 <= k < t.len() ==> upper(#[trigger] t[k])
}

/// The token's five-character, zero-padded time.
pub open spec fn token_time(t: Seq<char>) -> Seq<char> {
    if time_end(t) == Some(4int) {
        seq!['0'] + t.take(4)
    } else {
        t.take(5)
    }
}

/// The token's suffix letters.
pub open spec fn token_suffix(t: Seq<char>) -> Seq<char> {
    t.skip(time_end(t)->0)
}

/// The record a valid token stands for, in its context: time zero-padded,
/// destination chosen by the first suffix letter through the legend (the
/// line default on a miss) and then canonicalized, restriction decided by
/// the last suffix letter.
pub open spec fn departure_of(
    t: Seq<char>,
    legend: Map<char, Seq<char>>,
    default_dest: Seq<char>,
    line: Seq<char>,
    days: OperatingDays,
) -> RecordView {
    let suffix = token_suffix(t);
    let chosen = if suffix.len() > 0 && legend.contains_key(suffix[0]) {
        legend[suffix[0]]
    } else {
        default_dest
    };
    let school = if suffix.len() > 0 && suffix.last() == 'S' {
        SchoolRestriction::SchoolOnly
    } else if suffix.len() > 0 && suffix.last() == 'W' {
        SchoolRestriction::FreeDayOnly
    } else {
        SchoolRestriction::Normal
    };
    RecordView {
        time: token_time(t),
        line: line,
        destination: canon_dest(chosen),
        operating_days: days,
        school_restriction: school,
    }
}

/// A valid token's parsed time is always exactly five characters, in
/// zero-padded `HH:MM` shape.
pub proof fn lemma_time_shape(t: Seq<char>)
    requires
        valid_token(t),
    ensures
        token_time(t).len() == 5,
        digit(token_time(t)[0]),
        digit(token_time(t)[1]),
        token_time(t)[2] == ':',
        digit(token_time(t)[3]),
        digit(token_time(t)[4]),
{
}

/// Parses one time token; `None` exactly on a malformed token, which a
/// caller skips and reports rather than failing the document.
pub fn parse_token(
    t: &Vec<char>,
    legend: &Legend,
    default_dest: &Vec<char>,
    line: &Vec<char>,
    days: OperatingDays,
) -> (r: Option<StopDetailsBus>)
    ensures
        r is Some <==> valid_token(t@),
        r is Some ==> r->0@ == departure_of(t@, legend@, default_dest@, line@, days),
{
    let te: usize;
    if t.len() >= 4 && is_digit_char(t[0]) && t[1] == ':' && is_digit_char(t[2]) && is_digit_char(
        t[3],
    ) {
        te = 4;
    } else if t.len() >= 5 && is_digit_char(t[0]) && is_digit_char(t[1]) && t[2] == ':'
        && is_digit_char(t[3]) && is_digit_char(t[4]) {
        te = 5;
    } else {
        assert(time_end(t@) is None);
        return None;
    }
    let mut k: usize = te;
    while k < t.len()
        invariant
            te <= k <= t@.len(),
            time_end(t@) == Some(te as int),
            forall|j: int| te <= j < k ==> upper(#[trigger] t@[j]),
        decreases t@.len() - k,
    {
        if !is_upper_char(t[k]) {
            assert(!valid_token(t@));
            return None;
        }
        k += 1;
    }
    assert(valid_token(t@));
    let time: Vec<char> = if te == 4 {
        let mut w: Vec<char> = Vec::new();
        w.push('0');
        w.push(t[0]);
        w.push(t[1]);
        w.push(t[2]);
        w.push(t[3]);
        proof {
            assert(w@ =~= seq!['0'] + t@.take(4));
        }
        w
    } else {
        let w = subvec(t, 0, 5);
        proof {
            assert(t@.subrange(0, 5) =~= t@.take(5));
        }
        w
    };
    let ghost suffix = token_suffix(t@);
    let chosen: Vec<char> = if te < t.len() {
        assert(suffix.len() > 0 && suffix[0] == t@[te as int]);
        match legend.get(t[te]) {
            Some(v) => dup(v),
            None => dup(default_dest),
        }
    } else {
        assert(suffix.len() == 0);
        dup(default_dest)
    };
    let destination = canonical_destination(&chosen);
    let school = if te < t.len() {
        assert(suffix.last() == t@[t@.len() - 1]);
        let lastc = t[t.len() - 1];
        if lastc == 'S' {
            SchoolRestriction::SchoolOnly
        } else if lastc == 'W' {
            SchoolRestriction::FreeDayOnly
        } else {
            SchoolRestriction::Normal
        }
    } else {
        SchoolRestriction::Normal
    };
    Some(
        StopDetailsBus {
            time,
            line: dup(line),
            destination,
            operating_days: days,
            school_restriction: school,
        },
    )
}

} // verus!
