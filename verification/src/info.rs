//! Reading one `info` line of engine output into a partial result.

use vstd::prelude::*;
use crate::number::{parse_i32, parse_u32, parsed_i32, parsed_u32};
use crate::text::{chars_of, rows, same_chars, split_words, starts_with, string_from, texts, words};

verus! {

/// What one analysis line reports: any of depth and scores, the moves of
/// the principal variation, and the rank of the variation.
#[derive(Debug, Clone, PartialEq, Eq)]
pub struct ParsedInfoLine {
    pub depth: Option<u32>,
    pub score_cp: Option<i32>,
    pub score_mate: Option<i32>,
    pub pv: Vec<String>,
    pub multipv: u32,
}

/// The mathematical value of a `ParsedInfoLine`.
pub struct InfoRecord {
    pub depth: Option<u32>,
    pub score_cp: Option<i32>,
    pub score_mate: Option<i32>,
    pub pv: Seq<Seq<char>>,
    pub multipv: u32,
}

impl View for ParsedInfoLine {
    type V = InfoRecord;

    open spec fn view(&self) -> InfoRecord {
        InfoRecord {
            depth: self.depth,
            score_cp: self.score_cp,
            score_mate: self.score_mate,
            pv: texts(self.pv@),
            multipv: self.multipv,
        }
    }
}

/// The record before any keyword was read: nothing known, rank 1.
pub open spec fn blank_info() -> InfoRecord {
    InfoRecord { depth: None, score_cp: None, score_mate: None, pv: Seq::empty(), multipv: 1 }
}

/// The number that the word at `at` spells, or `kept` where there is no such
/// word or it spells none.
pub open spec fn number_after(all: Seq<Seq<char>>, at: int, kept: Option<u32>) -> Option<u32> {
    if 0 <= at < all.len() && parsed_u32(all[at]) is Some {
        parsed_u32(all[at])
    } else {
        kept
    }
}

/// `found` after the keyword `score` at `at`: where two words follow, the
/// kind `cp` or `mate` replaces that score by what the second word spells.
pub open spec fn with_score(all: Seq<Seq<char>>, at: int, found: InfoRecord) -> InfoRecord {
    if at + 2 < all.len() {
        if all[at + 1] == "cp"@ {
            InfoRecord { score_cp: parsed_i32(all[at + 2]), ..found }
        } else if all[at + 1] == "mate"@ {
            InfoRecord { score_mate: parsed_i32(all[at + 2]), ..found }
        } else {
            found
        }
    } else {
        found
    }
}

/// Reads the words from `at` on into `found`. `depth` and `multipv` take
/// the next word, `score` the next two, `pv` all that are left; any other
/// word is passed over.
pub open spec fn scan_info(all: Seq<Seq<char>>, at: int, found: InfoRecord) -> InfoRecord
    decreases
        (if at < all.len() {
            all.len() - at
        } else {
            0
        }),
{
    if at < 0 || at >= all.len() {
        found
    } else if all[at] == "depth"@ {
        scan_info(all, at + 2, InfoRecord { depth: number_after(all, at + 1, found.depth), ..found })
    } else if all[at] == "multipv"@ {
        scan_info(
            all,
            at + 2,
            InfoRecord {
                multipv: match number_after(all, at + 1, None) {
                    Some(rank) => rank,
                    None => found.multipv,
                },
                ..found
            },
        )
    } else if all[at] == "score"@ {
        scan_info(all, at + 3, with_score(all, at, found))
    } else if all[at] == "pv"@ {
        InfoRecord { pv: all.subrange(at + 1, all.len() as int), ..found }
    } else {
        scan_info(all, at + 1, found)
    }
}

/// Whether a record carries anything: a depth, a score or a move.
pub open spec fn is_informative(r: InfoRecord) -> bool {
    r.depth is Some || r.score_cp is Some || r.score_mate is Some || r.pv.len() > 0
}

/// What a line of engine output reports. Only a line that begins with
/// `info` and a space is analysis data, and only if it carries something.
pub open spec fn parsed_info(line: Seq<char>) -> Option<InfoRecord> {
    let found = scan_info(words(line), 0, blank_info());
    if "info "@.is_prefix_of(line) && is_informative(found) {
        Some(found)
    } else {
        None
    }
}

/// Parses one line of engine output.
pub fn parse_info_line(line: &str) -> (r: Option<ParsedInfoLine>)
    ensures
        match r {
            Some(p) => parsed_info(line@) == Some(p@),
            None => parsed_info(line@) is None,
        },
        !"info "@.is_prefix_of(line@) ==> r is None,
{
    let chars = chars_of(line);
    parse_info_chars(&chars)
}

/// Parses one line of engine output, given as characters.
pub fn parse_info_chars(chars: &Vec<char>) -> (r: Option<ParsedInfoLine>)
    ensures
        match r {
            Some(p) => parsed_info(chars@) == Some(p@),
            None => parsed_info(chars@) is None,
        },
        !"info "@.is_prefix_of(chars@) ==> r is None,
{
    if !starts_with(chars, "info ") {
        return None;
    }
    let all = split_words(chars);
    let kw_depth = chars_of("depth");
    let kw_multipv = chars_of("multipv");
    let kw_score = chars_of("score");
    let kw_pv = chars_of("pv");
    let kw_cp = chars_of("cp");
    let kw_mate = chars_of("mate");

    let mut depth: Option<u32> = None;
    let mut score_cp: Option<i32> = None;
    let mut score_mate: Option<i32> = None;
    let mut multipv: u32 = 1;
    let mut pv: Vec<String> = Vec::new();
    let mut at: usize = 0;
    let mut stop = false;
    let ghost goal = scan_info(words(chars@), 0, blank_info());
    assert(texts(pv@) == Seq::<Seq<char>>::empty());
    while at < all.len() && !stop
        invariant
            rows(all@) == words(chars@),
            kw_depth@ == "depth"@,
            kw_multipv@ == "multipv"@,
            kw_score@ == "score"@,
            kw_pv@ == "pv"@,
            kw_cp@ == "cp"@,
            kw_mate@ == "mate"@,
            !stop ==> pv@.len() == 0,
            !stop ==> scan_info(
                rows(all@),
                at as int,
                (InfoRecord { depth, score_cp, score_mate, pv: texts(pv@), multipv }),
            ) == goal,
            stop ==> (InfoRecord { depth, score_cp, score_mate, pv: texts(pv@), multipv }) == goal,
        decreases all.len() - at, (if stop { 0int } else { 1int }),
    {
        let ghost ws = rows(all@);
        let ghost found = InfoRecord { depth, score_cp, score_mate, pv: texts(pv@), multipv };
        let ghost was = at as int;
        let left: usize = all.len() - at;
        assert(ws[at as int] == all@[at as int]@);
        if same_chars(&all[at], &kw_depth) {
            if left > 1 {
                assert(ws[at + 1] == all@[at + 1]@);
                match parse_u32(&all[at + 1]) {
                    Some(v) => {
                        depth = Some(v);
                    },
                    None => {},
                }
            }
            at = if left > 2 {
                at + 2
            } else {
                all.len()
            };
            proof {
                let next = InfoRecord { depth, score_cp, score_mate, pv: texts(pv@), multipv };
                assert(scan_info(ws, was, found) == scan_info(ws, was + 2, next));
                assert(scan_info(ws, was + 2, next) == scan_info(ws, at as int, next));
            }
        } else if same_chars(&all[at], &kw_multipv) {
            if left > 1 {
                assert(ws[at + 1] == all@[at + 1]@);
                match parse_u32(&all[at + 1]) {
                    Some(v) => {
                        multipv = v;
                    },
                    None => {},
                }
            }
            at = if left > 2 {
                at + 2
            } else {
                all.len()
            };
            proof {
                let next = InfoRecord { depth, score_cp, score_mate, pv: texts(pv@), multipv };
                assert(scan_info(ws, was, found) == scan_info(ws, was + 2, next));
                assert(scan_info(ws, was + 2, next) == scan_info(ws, at as int, next));
            }
        } else if same_chars(&all[at], &kw_score) {
            if left > 2 {
                assert(ws[at + 1] == all@[at + 1]@);
                assert(ws[at + 2] == all@[at + 2]@);
                if same_chars(&all[at + 1], &kw_cp) {
                    score_cp = parse_i32(&all[at + 2]);
                } else if same_chars(&all[at + 1], &kw_mate) {
                    score_mate = parse_i32(&all[at + 2]);
                }
            }
            at = if left > 3 {
                at + 3
            } else {
                all.len()
            };
            proof {
                let next = InfoRecord { depth, score_cp, score_mate, pv: texts(pv@), multipv };
                assert(next == with_score(ws, was, found));
                assert(scan_info(ws, was, found) == scan_info(ws, was + 3, next));
                assert(scan_info(ws, was + 3, next) == scan_info(ws, at as int, next));
            }
        } else if same_chars(&all[at], &kw_pv) {
            let mut k: usize = at + 1;
            while k < all.len()
                invariant
                    at < k <= all.len(),
                    ws == rows(all@),
                    texts(pv@) == ws.subrange(at + 1, k as int),
                decreases all.len() - k,
            {
                let word = string_from(&all[k]);
                proof {
                    assert(texts(pv@.push(word)) == texts(pv@).push(word@));
                    assert(ws.subrange(at + 1, k + 1) == ws.subrange(at + 1, k as int).push(
                        ws[k as int],
                    ));
                }
                pv.push(word);
                k += 1;
            }
            stop = true;
        } else {
            at += 1;
        }
    }
    if depth.is_none() && score_cp.is_none() && score_mate.is_none() && pv.len() == 0 {
        None
    } else {
        Some(ParsedInfoLine { depth, score_cp, score_mate, pv, multipv })
    }
}

/// The depth of a record, zero where it reports none.
pub open spec fn depth_or_zero(r: InfoRecord) -> u32 {
    match r.depth {
        Some(d) => d,
        None => 0,
    }
}

/// Whether `candidate` replaces `current` as the best record of a rank: it
/// is deeper, or as deep and the only one of the two that carries moves.
pub open spec fn improves(candidate: InfoRecord, current: InfoRecord) -> bool {
    ||| depth_or_zero(candidate) > depth_or_zero(current)
    ||| (depth_or_zero(candidate) == depth_or_zero(current) && candidate.pv.len() > 0
        && current.pv.len() == 0)
}

/// Decides whether `candidate` replaces `current`.
pub fn better_info(candidate: &ParsedInfoLine, current: &ParsedInfoLine) -> (r: bool)
    ensures
        r == improves(candidate@, current@),
{
    let candidate_depth: u32 = match candidate.depth {
        Some(d) => d,
        None => 0,
    };
    let current_depth: u32 = match current.depth {
        Some(d) => d,
        None => 0,
    };
    candidate_depth > current_depth || (candidate_depth == current_depth && candidate.pv.len() > 0
        && current.pv.len() == 0)
}

/// A line that does not begin with `info` and a space reports nothing,
/// whatever else it holds.
pub proof fn lemma_unmarked_line_reports_nothing(line: Seq<char>)
    requires
        !"info "@.is_prefix_of(line),
    ensures
        parsed_info(line) is None,
{
}

} // verus!
