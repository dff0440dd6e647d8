//! Legend Resolver: the per-document table mapping single-letter suffix
//! markers to destination strings.
//!
//! The legend section sits between two fixed anchors. Each entry is
//! announced by an uppercase letter followed by a dash; its value runs to
//! the next marker or the section end. A value names a destination only
//! through the fixed cue phrase; values without the cue are dropped.

use crate::normalize::{canon_dest, canonical_destination};
use crate::text::{
    chars_of, find, find_from, is_upper_char, lemma_find_from_bounds, scan_skip_spaces,
    skip_spaces, subvec, trim, trim_spaces, upper,
};
use vstd::prelude::*;

verus! {

/// Map view of a sequence of legend entries; a later entry for the same
/// letter wins.
pub open spec fn legend_map(es: Seq<(char, Seq<char>)>) -> Map<char, Seq<char>>
    decreases es.len(),
{
    if es.len() == 0 {
        Map::empty()
    } else {
        legend_map(es.drop_last()).insert(es.last().0, es.last().1)
    }
}

/// A per-document legend from suffix letters to destination strings.
pub struct Legend {
    pub entries: Vec<(char, Vec<char>)>,
}

/// The entry views of a legend's backing vector.
pub open spec fn legend_entries_view(es: Seq<(char, Vec<char>)>) -> Seq<(char, Seq<char>)> {
    es.map_values(|e: (char, Vec<char>)| (e.0, e.1@))
}

impl View for Legend {
    type V = Map<char, Seq<char>>;

    open spec fn view(&self) -> Map<char, Seq<char>> {
        legend_map(legend_entries_view(self.entries@))
    }
}

proof fn lemma_legend_found(es: Seq<(char, Seq<char>)>, j: int, label: char)
    requires
        0 <= j < es.len(),
        es[j].0 == label,
        forall|k: int| j < k < es.len() ==> (#[trigger] es[k]).0 != label,
    ensures
        legend_map(es).contains_key(label),
        legend_map(es)[label] == es[j].1,
    decreases es.len(),
{
    if j == es.len() - 1 {
    } else {
        lemma_legend_found(es.drop_last(), j, label);
    }
}

proof fn lemma_legend_absent(es: Seq<(char, Seq<char>)>, label: char)
    requires
        forall|k: int| 0 <= k < es.len() ==> (#[trigger] es[k]).0 != label,
    ensures
        !legend_map(es).contains_key(label),
    decreases es.len(),
{
    if es.len() > 0 {
        lemma_legend_absent(es.drop_last(), label);
    }
}

impl Legend {
    /// An empty legend.
    pub fn new() -> (r: Legend)
        ensures
            r@ == Map::<char, Seq<char>>::empty(),
    {
        let r = Legend { entries: Vec::new() };
        proof {
            assert(legend_entries_view(r.entries@) =~= Seq::<(char, Seq<char>)>::empty());
        }
        r
    }

    /// Records `label` as naming `dest`, replacing any earlier entry.
    pub fn insert(&mut self, label: char, dest: Vec<char>)
        ensures
            final(self)@ == old(self)@.insert(label, dest@),
    {
        self.entries.push((label, dest));
        proof {
            let a = legend_entries_view(old(self).entries@);
            let b = legend_entries_view(self.entries@);
            assert(b.drop_last() =~= a);
            assert(b.last() == (label, dest@));
        }
    }

    /// The destination a letter stands for, if any.
    pub fn get(&self, label: char) -> (r: Option<&Vec<char>>)
        ensures
            match r {
                Some(v) => self@.contains_key(label) && v@ == self@[label],
                None => !self@.contains_key(label),
            },
    {
        let ghost es = legend_entries_view(self.entries@);
        let mut i: usize = self.entries.len();
        while i > 0
            invariant
                i <= self.entries@.len(),
                es == legend_entries_view(self.entries@),
                forall|k: int| i <= k < es.len() ==> (#[trigger] es[k]).0 != label,
            decreases i,
        {
            i = i - 1;
            if self.entries[i].0 == label {
                proof {
                    lemma_legend_found(es, i as int, label);
                }
                return Some(&self.entries[i].1);
            }
        }
        proof {
            lemma_legend_absent(es, label);
        }
        None
    }
}

/// The destination named by one legend entry value: the phrase after the
/// destination cue, up to a routing clause or the end, canonicalized.
pub open spec fn kurs_dest(v: Seq<char>) -> Option<Seq<char>> {
    match find_from(v, "Kurs do:"@, 0) {
        None => None,
        Some(k) => {
            let st = skip_spaces(v, k + "Kurs do:"@.len());
            let p = match find_from(v, " przez"@, st) {
                Some(p) => p,
                None => v.len() as int,
            };
            Some(canon_dest(v.subrange(st, p)))
        },
    }
}

/// Exec form of `kurs_dest`.
pub fn extract_kurs_dest(v: &Vec<char>) -> (r: Option<Vec<char>>)
    ensures
        match r {
            Some(d) => kurs_dest(v@) == Some(d@),
            None => kurs_dest(v@) is None,
        },
{
    let n = v.len();
    let cue = chars_of("Kurs do:");
    proof {
        reveal_strlit("Kurs do:");
        reveal_strlit(" przez");
    }
    let k = match find(v, &cue, 0) {
        None => {
            return None;
        },
        Some(k) => k,
    };
    proof {
        lemma_find_from_bounds(v@, cue@, 0);
        assert(k + cue@.len() <= n);
    }
    let st = scan_skip_spaces(v, k + cue.len());
    let sep = chars_of(" przez");
    let p = match find(v, &sep, st) {
        None => v.len(),
        Some(p) => {
            proof {
                lemma_find_from_bounds(v@, sep@, st as int);
            }
            p
        },
    };
    Some(canonical_destination(&subvec(v, st, p)))
}

/// Marker shape at `i`: an uppercase letter, an optional space, a dash, an
/// optional space; yields the index just past the marker.
pub open spec fn marker_end(s: Seq<char>, i: int) -> Option<int> {
    if 0 <= i < s.len() && upper(s[i]) {
        let j = if i + 1 < s.len() && s[i + 1] == ' ' {
            i + 2
        } else {
            i + 1
        };
        if j < s.len() && s[j] == '-' {
            Some(
                if j + 1 < s.len() && s[j + 1] == ' ' {
                    j + 2
                } else {
                    j + 1
                },
            )
        } else {
            None
        }
    } else {
        None
    }
}

/// First marker position at or after `i`.
pub open spec fn find_marker(s: Seq<char>, i: int) -> Option<int>
    decreases s.len() - i,
{
    if i < 0 || i >= s.len() {
        None
    } else if marker_end(s, i) is Some {
        Some(i)
    } else {
        find_marker(s, i + 1)
    }
}

pub proof fn lemma_find_marker_bounds(s: Seq<char>, i: int)
    ensures
        find_marker(s, i) is Some ==> {
            let m = find_marker(s, i)->0;
            i <= m && marker_end(s, m) is Some && m + 2 <= marker_end(s, m)->0 <= s.len()
        },
    decreases s.len() - i,
{
    if !(i < 0 || i >= s.len()) && marker_end(s, i) is None {
        lemma_find_marker_bounds(s, i + 1);
    }
}

/// Legend entries of the section text from position `i` on, as a map.
pub open spec fn entries_map(s: Seq<char>, i: int) -> Map<char, Seq<char>>
    decreases s.len() - i,
    via entries_map_dec
{
    match find_marker(s, i) {
        None => Map::empty(),
        Some(m) => {
            let e = marker_end(s, m)->0;
            let vend = match find_marker(s, e) {
                Some(n) => n,
                None => s.len() as int,
            };
            let value = trim(s.subrange(e, vend));
            let cur: Map<char, Seq<char>> = match kurs_dest(value) {
                Some(d) => Map::empty().insert(s[m], d),
                None => Map::empty(),
            };
            cur.union_prefer_right(entries_map(s, e))
        },
    }
}

#[via_fn]
proof fn entries_map_dec(s: Seq<char>, i: int) {
    lemma_find_marker_bounds(s, i);
}

/// Legend Resolver: the legend of a document, empty when the section
/// anchors are absent.
pub open spec fn legend_of(text: Seq<char>) -> Map<char, Seq<char>> {
    match find_from(text, "Legenda:"@, 0) {
        None => Map::empty(),
        Some(l) => {
            let s0 = l + "Legenda:"@.len();
            match find_from(text, "Operator:"@, s0) {
                None => Map::empty(),
                Some(o) => entries_map(text.subrange(s0, o), 0),
            }
        },
    }
}

/// Exec form of `legend_of`.
pub fn resolve_legend(text: &Vec<char>) -> (lg: Legend)
    ensures
        lg@ == legend_of(text@),
{
    let n = text.len();
    let open_anchor = chars_of("Legenda:");
    proof {
        reveal_strlit("Legenda:");
        reveal_strlit("Operator:");
    }
    let l = match find(text, &open_anchor, 0) {
        None => {
            return Legend::new();
        },
        Some(l) => l,
    };
    proof {
        lemma_find_from_bounds(text@, open_anchor@, 0);
        assert(l + open_anchor@.len() <= n);
    }
    let s0 = l + open_anchor.len();
    let close_anchor = chars_of("Operator:");
    let o = match find(text, &close_anchor, s0) {
        None => {
            return Legend::new();
        },
        Some(o) => o,
    };
    proof {
        lemma_find_from_bounds(text@, close_anchor@, s0 as int);
    }
    let sec = subvec(text, s0, o);
    let ghost ss = sec@;
    let mut lg = Legend::new();
    let mut i: usize = 0;
    proof {
        assert(Map::<char, Seq<char>>::empty().union_prefer_right(entries_map(ss, 0)) =~= entries_map(ss, 0));
    }
    loop
        invariant
            i <= ss.len(),
            ss == sec@,
            entries_map(ss, 0) == lg@.union_prefer_right(entries_map(ss, i as int)),
        ensures
            lg@ == entries_map(ss, 0),
        decreases ss.len() - i,
    {
        let m = match scan_marker(&sec, i) {
            None => {
                proof {
                    assert(lg@.union_prefer_right(entries_map(ss, i as int)) =~= lg@);
                }
                break ;
            },
            Some(m) => m,
        };
        let (mpos, e) = m;
        let vend = match scan_marker(&sec, e) {
            None => sec.len(),
            Some(n) => {
                proof {
                    lemma_find_marker_bounds(ss, e as int);
                }
                n.0
            },
        };
        let value = trim_spaces(&subvec(&sec, e, vend));
        let ghost prev = lg@;
        let label = sec[mpos];
        match extract_kurs_dest(&value) {
            Some(d) => {
                lg.insert(label, d);
            },
            None => {},
        }
        proof {
            let cur = match kurs_dest(value@) {
                Some(d) => Map::<char, Seq<char>>::empty().insert(label, d),
                None => Map::<char, Seq<char>>::empty(),
            };
            assert(entries_map(ss, i as int) == cur.union_prefer_right(entries_map(ss, e as int)));
            assert(prev.union_prefer_right(cur.union_prefer_right(entries_map(ss, e as int)))
                =~= lg@.union_prefer_right(entries_map(ss, e as int)));
        }
        i = e;
    }
    lg
}

/// First marker of the section at or after `from`, with its end.
pub fn scan_marker(s: &Vec<char>, from: usize) -> (r: Option<(usize, usize)>)
    ensures
        match r {
            Some(m) => find_marker(s@, from as int) == Some(m.0 as int) && marker_end(
                s@,
                m.0 as int,
            ) == Some(m.1 as int) && from <= m.0 && m.0 + 2 <= m.1 <= s@.len(),
            None => find_marker(s@, from as int) is None,
        },
{
    let mut i: usize = from;
    while i < s.len()
        invariant
            from <= i,
            find_marker(s@, from as int) == find_marker(s@, i as int),
        decreases s@.len() - i,
    {
        if is_upper_char(s[i]) {
            let j = if i + 1 < s.len() && s[i + 1] == ' ' {
                i + 2
            } else {
                i + 1
            };
            if j < s.len() && s[j] == '-' {
                let e = if j + 1 < s.len() && s[j + 1] == ' ' {
                    j + 2
                } else {
                    j + 1
                };
                return Some((i, e));
            }
        }
        i += 1;
    }
    None
}

} // verus!
