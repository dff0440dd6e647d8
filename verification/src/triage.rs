//! Whitespace normalization and document-quality triage.
//!
//! A document's extracted text is trustworthy when enough of a fixed-size
//! prefix of its whitespace-normalized form is plausible content; garbled
//! extraction shows up as control and other implausible characters early on.

use crate::chars::{is_plausible, is_white, plausible_char, white_char};
use crate::text::chars_of;
use vstd::prelude::*;

verus! {

/// Number of leading characters that quality triage samples.
pub const SAMPLE_LEN: usize = 100;

/// The sampled plausible-character count must exceed this for the text to be
/// trustworthy (80% of the sample size).
pub const PLAUSIBLE_MIN: usize = 80;

/// One left-to-right pass that collapses white-space runs to single spaces
/// and drops leading and trailing white space. `pending` records that a
/// separating space is owed before the next word character.
pub open spec fn norm_rec(s: Seq<char>, i: int, pending: bool, acc: Seq<char>) -> Seq<char>
    decreases s.len() - i,
{
    if i < 0 || i >= s.len() {
        acc
    } else if white_char(s[i]) {
        norm_rec(s, i + 1, acc.len() > 0, acc)
    } else if pending {
        norm_rec(s, i + 1, false, acc.push(' ').push(s[i]))
    } else {
        norm_rec(s, i + 1, false, acc.push(s[i]))
    }
}

/// `s` with every white-space run collapsed to one space and outer white
/// space removed.
pub open spec fn norm_ws(s: Seq<char>) -> Seq<char> {
    norm_rec(s, 0, false, Seq::empty())
}

pub fn normalize_whitespace(s: &Vec<char>) -> (r: Vec<char>)
    ensures
        r@ == norm_ws(s@),
{
    let mut out: Vec<char> = Vec::new();
    let mut pending = false;
    let mut i: usize = 0;
    while i < s.len()
        invariant
            i <= s@.len(),
            norm_rec(s@, i as int, pending, out@) == norm_ws(s@),
        decreases s@.len() - i,
    {
        let c = s[i];
        if is_white(c) {
            pending = out.len() > 0;
        } else {
            if pending {
                out.push(' ');
            }
            out.push(c);
            pending = false;
        }
        i += 1;
    }
    out
}

/// Count of plausible characters in `s`.
pub open spec fn count_plausible(s: Seq<char>) -> nat
    decreases s.len(),
{
    if s.len() == 0 {
        0
    } else {
        count_plausible(s.drop_last()) + (if plausible_char(s.last()) {
            1nat
        } else {
            0nat
        })
    }
}

/// The triage sample: the first `SAMPLE_LEN` characters of the normalized
/// text, or all of it when shorter.
pub open spec fn sample(t: Seq<char>) -> Seq<char> {
    let n = norm_ws(t);
    if n.len() <= SAMPLE_LEN {
        n
    } else {
        n.take(SAMPLE_LEN as int)
    }
}

/// The text is trustworthy exactly when more than `PLAUSIBLE_MIN` sampled
/// characters are plausible content. Empty text is never trustworthy.
pub open spec fn trustworthy(t: Seq<char>) -> bool {
    count_plausible(sample(t)) > PLAUSIBLE_MIN
}

/// Quality triage over a document's extracted text.
pub fn assess(text: &str) -> (r: bool)
    ensures
        r == trustworthy(text@),
{
    let cs = chars_of(text);
    let norm = normalize_whitespace(&cs);
    let limit = if norm.len() <= SAMPLE_LEN {
        norm.len()
    } else {
        SAMPLE_LEN
    };
    let mut cnt: usize = 0;
    let mut i: usize = 0;
    while i < limit
        invariant
            i <= limit,
            limit <= norm@.len(),
            cnt <= i,
            cnt == count_plausible(norm@.take(i as int)),
        decreases limit - i,
    {
        if is_plausible(norm[i]) {
            cnt += 1;
        }
        proof {
            assert(norm@.take(i + 1).drop_last() =~= norm@.take(i as int));
            assert(norm@.take(i + 1).last() == norm@[i as int]);
        }
        i += 1;
    }
    proof {
        if norm@.len() <= SAMPLE_LEN {
            assert(norm@.take(limit as int) =~= norm@);
        }
        assert(norm@.take(limit as int) == sample(text@));
    }
    cnt > PLAUSIBLE_MIN
}

} // verus!
