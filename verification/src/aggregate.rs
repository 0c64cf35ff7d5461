//! The best record of each rank over a stream of partial results, and the
//! analysis that is built from them once the engine has named its move.

use vstd::prelude::*;
use crate::info::{better_info, depth_or_zero, improves, InfoRecord, ParsedInfoLine};
use crate::rules::{pv_uci_to_san, san_line};
use crate::text::{copy_string, copy_strings, optional_view, texts};
use crate::types::{
    line_records,
    AnalysisRecord,
    EngineAnalysis,
    EngineLine,
    LineRecord,
};

verus! {

/// The widest set of ranked variations that an analysis tracks.
pub const MAX_MULTIPV: u32 = 10;

/// Search depth used when a caller asks for depth zero.
pub const DEFAULT_DEPTH: u32 = 18;

/// The depth that an analysis uses for a requested depth: the default in
/// place of zero.
pub open spec fn depth_used(depth: u32) -> u32 {
    if depth == 0 {
        DEFAULT_DEPTH
    } else {
        depth
    }
}

/// The width that an analysis uses for a requested width: the nearest
/// value in `1..=MAX_MULTIPV`.
pub open spec fn width_used(multipv: u32) -> u32 {
    if multipv < 1 {
        1
    } else if multipv > MAX_MULTIPV {
        MAX_MULTIPV
    } else {
        multipv
    }
}

/// The depth that is sent to the engine: the default in place of zero.
pub fn normalized_depth(depth: u32) -> (out: u32)
    ensures
        out == depth_used(depth),
        out >= 1,
{
    if depth == 0 {
        DEFAULT_DEPTH
    } else {
        depth
    }
}

/// The width that is sent to the engine: the nearest value in
/// `1..=MAX_MULTIPV`.
pub fn normalized_multipv(multipv: u32) -> (out: u32)
    ensures
        out == width_used(multipv),
        1 <= out <= MAX_MULTIPV,
{
    if multipv < 1 {
        1
    } else if multipv > MAX_MULTIPV {
        MAX_MULTIPV
    } else {
        multipv
    }
}

/// The view of an optional record.
pub open spec fn optional_record(slot: Option<ParsedInfoLine>) -> Option<InfoRecord> {
    match slot {
        Some(p) => Some(p@),
        None => None,
    }
}

/// The table after one more partial result. A rank of zero or beyond the
/// table's width changes nothing. Otherwise the record takes its rank's
/// place if that is empty or if the record improves on what is there.
pub open spec fn absorbed(best: Seq<Option<InfoRecord>>, info: InfoRecord) -> Seq<
    Option<InfoRecord>,
> {
    let rank = info.multipv as int;
    if 1 <= rank <= best.len() && (best[rank - 1] matches Some(current) ==> improves(
        info,
        current,
    )) {
        best.update(rank - 1, Some(info))
    } else {
        best
    }
}

/// Whether every record of the table sits in the place of its own rank.
pub open spec fn ranks_in_place(best: Seq<Option<InfoRecord>>) -> bool {
    forall|i: int|
        0 <= i < best.len() ==> (#[trigger] best[i] matches Some(r) ==> r.multipv == i + 1)
}

/// Whether the table holds no record at all.
pub open spec fn nothing_recorded(best: Seq<Option<InfoRecord>>) -> bool {
    forall|i: int| 0 <= i < best.len() ==> #[trigger] best[i] is None
}

/// The best record seen so far for each rank from 1 to the table's width.
pub struct RankTable {
    slots: Vec<Option<ParsedInfoLine>>,
}

impl View for RankTable {
    type V = Seq<Option<InfoRecord>>;

    /// Place `i` holds the record of rank `i + 1`.
    closed spec fn view(&self) -> Seq<Option<InfoRecord>> {
        self.slots@.map_values(|slot: Option<ParsedInfoLine>| optional_record(slot))
    }
}

impl RankTable {
    /// An empty table for the ranks `1..=width`, and for no more than
    /// `MAX_MULTIPV` ranks.
    pub fn new(width: u32) -> (table: RankTable)
        ensures
            table@ == Seq::new(
                (if width > MAX_MULTIPV {
                    MAX_MULTIPV
                } else {
                    width
                }) as nat,
                |i: int| None::<InfoRecord>,
            ),
    {
        let width = if width > MAX_MULTIPV {
            MAX_MULTIPV
        } else {
            width
        };
        let mut slots: Vec<Option<ParsedInfoLine>> = Vec::new();
        let mut i: u32 = 0;
        while i < width
            invariant
                i <= width <= MAX_MULTIPV,
                slots.len() == i,
                forall|k: int| 0 <= k < slots.len() ==> slots@[k] is None,
            decreases width - i,
        {
            slots.push(None);
            i += 1;
        }
        let table = RankTable { slots };
        assert(table@ == Seq::new(width as nat, |i: int| None::<InfoRecord>));
        table
    }

    /// The number of ranks that the table tracks.
    pub fn width(&self) -> (w: usize)
        ensures
            w == self@.len(),
    {
        self.slots.len()
    }

    /// Takes one partial result into the table.
    pub fn observe(&mut self, info: ParsedInfoLine)
        ensures
            final(self)@ == absorbed(old(self)@, info@),
    {
        let rank = info.multipv;
        if rank == 0 || rank as usize > self.slots.len() {
            return ;
        }
        let place: usize = (rank - 1) as usize;
        let replace = match &self.slots[place] {
            Some(current) => better_info(&info, current),
            None => true,
        };
        if replace {
            let ghost before = self@;
            self.slots.set(place, Some(info));
            assert(self@ == before.update(place as int, Some(info@)));
        }
    }

    /// Whether no rank has a record.
    pub fn is_empty(&self) -> (r: bool)
        ensures
            r == nothing_recorded(self@),
    {
        let mut i: usize = 0;
        while i < self.slots.len()
            invariant
                i <= self.slots.len(),
                forall|k: int| 0 <= k < i ==> self@[k] is None,
            decreases self.slots.len() - i,
        {
            if self.slots[i].is_some() {
                assert(self@[i as int] is Some);
                return false;
            }
            i += 1;
        }
        true
    }

    /// The ranked lines of the table, by rank ascending, with each line's
    /// moves in standard notation, played from the position `fen`.
    pub fn lines(&self, fen: &str, fallback_depth: u32) -> (out: Vec<EngineLine>)
        ensures
            line_records(out@) == ranked_lines(self@, self@.len() as int, fen@, fallback_depth),
    {
        let mut out: Vec<EngineLine> = Vec::new();
        let mut i: usize = 0;
        while i < self.slots.len()
            invariant
                i <= self.slots.len(),
                line_records(out@) == ranked_lines(self@, i as int, fen@, fallback_depth),
            decreases self.slots.len() - i,
        {
            match &self.slots[i] {
                Some(info) => {
                    let line = line_from_info(info, fen, fallback_depth);
                    proof {
                        assert(self@[i as int] == Some(info@));
                        assert(line_records(out@.push(line)) == line_records(out@).push(line@));
                    }
                    out.push(line);
                },
                None => {
                    assert(self@[i as int] is None);
                },
            }
            i += 1;
        }
        out
    }
}

/// The line that a record becomes: it has the record's rank, a missing
/// depth is replaced by `fallback_depth`, and the moves are put in standard
/// notation, played from the position `fen`.
pub open spec fn line_of(info: InfoRecord, fen: Seq<char>, fallback_depth: u32) -> LineRecord {
    LineRecord {
        multipv_rank: info.multipv,
        depth: match info.depth {
            Some(d) => d,
            None => fallback_depth,
        },
        score_cp: info.score_cp,
        score_mate: info.score_mate,
        pv: info.pv,
        san_pv: san_line(fen, info.pv),
    }
}

/// The lines of the ranks `1..=upto`, by rank ascending.
pub open spec fn ranked_lines(
    best: Seq<Option<InfoRecord>>,
    upto: int,
    fen: Seq<char>,
    fallback_depth: u32,
) -> Seq<LineRecord>
    decreases upto,
{
    if upto <= 0 {
        Seq::empty()
    } else {
        let before = ranked_lines(best, upto - 1, fen, fallback_depth);
        if upto <= best.len() && best[upto - 1] is Some {
            before.push(line_of(best[upto - 1]->0, fen, fallback_depth))
        } else {
            before
        }
    }
}

/// Builds the line of one rank.
pub fn line_from_info(info: &ParsedInfoLine, fen: &str, fallback_depth: u32) -> (line: EngineLine)
    ensures
        line@ == line_of(info@, fen@, fallback_depth),
{
    let san_pv = pv_uci_to_san(fen, &info.pv);
    EngineLine {
        multipv_rank: info.multipv,
        depth: match info.depth {
            Some(d) => d,
            None => fallback_depth,
        },
        score_cp: info.score_cp,
        score_mate: info.score_mate,
        pv: copy_strings(&info.pv),
        san_pv,
    }
}

/// The place of the first line of rank 1 at or after `from`, or the number
/// of lines where there is none.
pub open spec fn first_of_rank_one(lines: Seq<LineRecord>, from: int) -> int
    decreases lines.len() - from,
{
    if 0 <= from < lines.len() && lines[from].multipv_rank != 1 {
        first_of_rank_one(lines, from + 1)
    } else {
        from
    }
}

/// The line that an analysis reports as its own: the first of rank 1, or
/// the first of all where no line has rank 1.
pub open spec fn primary_line(lines: Seq<LineRecord>) -> LineRecord {
    let at = first_of_rank_one(lines, 0);
    if 0 <= at < lines.len() {
        lines[at]
    } else {
        lines[0]
    }
}

/// The move to play: the primary line's first move in standard notation,
/// else the move that the engine announced, else the primary line's first
/// move as the engine wrote it, else none.
pub open spec fn chosen_move(primary: LineRecord, announced: Option<Seq<char>>) -> Option<
    Seq<char>,
> {
    if primary.san_pv.len() > 0 {
        Some(primary.san_pv[0])
    } else if announced is Some {
        announced
    } else if primary.pv.len() > 0 {
        Some(primary.pv[0])
    } else {
        None
    }
}

/// The analysis that a set of lines amounts to, `None` for no lines.
pub open spec fn summary_of(lines: Seq<LineRecord>, announced: Option<Seq<char>>) -> Option<
    AnalysisRecord,
> {
    if lines.len() == 0 {
        None
    } else {
        let primary = primary_line(lines);
        Some(
            AnalysisRecord {
                depth: primary.depth,
                score_cp: primary.score_cp,
                score_mate: primary.score_mate,
                bestmove: chosen_move(primary, announced),
                pv: primary.pv,
                lines,
            },
        )
    }
}

/// Builds the analysis from its lines and the move that the engine
/// announced. There is none without a line.
pub fn summarize(lines: Vec<EngineLine>, announced: Option<String>) -> (r: Option<EngineAnalysis>)
    ensures
        match r {
            Some(a) => summary_of(line_records(lines@), optional_view(announced)) == Some(a@),
            None => lines.len() == 0,
        },
{
    if lines.len() == 0 {
        return None;
    }
    let ghost records = line_records(lines@);
    let mut at: usize = 0;
    while at < lines.len() && lines[at].multipv_rank != 1
        invariant
            at <= lines.len(),
            records == line_records(lines@),
            first_of_rank_one(records, at as int) == first_of_rank_one(records, 0),
        decreases lines.len() - at,
    {
        assert(records[at as int] == lines@[at as int]@);
        at += 1;
    }
    proof {
        if at < lines.len() {
            assert(records[at as int] == lines@[at as int]@);
        }
    }
    if at == lines.len() {
        at = 0;
    }
    let primary = &lines[at];
    assert(primary@ == primary_line(records)) by {
        assert(records[at as int] == lines@[at as int]@);
    }
    let bestmove: Option<String> = if primary.san_pv.len() > 0 {
        assert(texts(primary.san_pv@)[0] == primary.san_pv@[0]@);
        Some(copy_string(&primary.san_pv[0]))
    } else if announced.is_some() {
        announced
    } else if primary.pv.len() > 0 {
        assert(texts(primary.pv@)[0] == primary.pv@[0]@);
        Some(copy_string(&primary.pv[0]))
    } else {
        None
    };
    let depth = primary.depth;
    let score_cp = primary.score_cp;
    let score_mate = primary.score_mate;
    let pv = copy_strings(&primary.pv);
    Some(EngineAnalysis { depth, score_cp, score_mate, bestmove, pv, lines })
}

/// Whether the ranks of `lines` rise strictly from line to line.
pub open spec fn ranks_rise(lines: Seq<LineRecord>) -> bool {
    forall|i: int, j: int|
        0 <= i < j < lines.len() ==> (#[trigger] lines[i]).multipv_rank < (
        #[trigger] lines[j]).multipv_rank
}

/// The lines of a table whose records sit in the places of their ranks
/// have ranks within `1..=upto` that rise strictly, so no rank occurs
/// twice; and there is a line if and only if there is a record.
pub proof fn lemma_ranked_lines_ordered(
    best: Seq<Option<InfoRecord>>,
    upto: int,
    fen: Seq<char>,
    fallback_depth: u32,
)
    requires
        0 <= upto <= best.len(),
        ranks_in_place(best),
    ensures
        ranks_rise(ranked_lines(best, upto, fen, fallback_depth)),
        forall|i: int|
            0 <= i < ranked_lines(best, upto, fen, fallback_depth).len() ==> 1 <= (
            #[trigger] ranked_lines(best, upto, fen, fallback_depth)[i]).multipv_rank <= upto,
        ranked_lines(best, upto, fen, fallback_depth).len() == 0 <==> nothing_recorded(
            best.take(upto),
        ),
        ranked_lines(best, upto, fen, fallback_depth).len() <= upto,
    decreases upto,
{
    if upto > 0 {
        lemma_ranked_lines_ordered(best, upto - 1, fen, fallback_depth);
        let before = ranked_lines(best, upto - 1, fen, fallback_depth);
        let now = ranked_lines(best, upto, fen, fallback_depth);
        if nothing_recorded(best.take(upto)) {
            assert(best.take(upto)[upto - 1] is None);
            assert forall|i: int| 0 <= i < best.take(upto - 1).len() implies #[trigger] best.take(
                upto - 1,
            )[i] is None by {
                assert(best.take(upto)[i] is None);
            }
        } else if best[upto - 1] is None {
            let k = choose|k: int| 0 <= k < upto && !(#[trigger] best.take(upto)[k] is None);
            assert(best.take(upto - 1)[k] == best.take(upto)[k]);
        }
        if now.len() == 0 {
            assert(best[upto - 1] is None);
            assert forall|i: int| 0 <= i < best.take(upto).len() implies #[trigger] best.take(
                upto,
            )[i] is None by {
                if i < upto - 1 {
                    assert(best.take(upto - 1)[i] is None);
                }
            }
        }
    } else {
        assert(best.take(0).len() == 0);
    }
}

/// The primary line of a table's lines is the first of them, and it has
/// the lowest rank that holds a record: rank 1 wherever rank 1 has one.
pub proof fn lemma_primary_is_lowest_rank(lines: Seq<LineRecord>)
    requires
        lines.len() > 0,
        ranks_rise(lines),
        forall|i: int| 0 <= i < lines.len() ==> (#[trigger] lines[i]).multipv_rank >= 1,
    ensures
        primary_line(lines) == lines[0],
        forall|i: int|
            0 <= i < lines.len() ==> primary_line(lines).multipv_rank <= (
            #[trigger] lines[i]).multipv_rank,
{
    let at = first_of_rank_one(lines, 0);
    lemma_first_of_rank_one(lines, 0);
    if 0 < at < lines.len() {
        assert(lines[0].multipv_rank < lines[at].multipv_rank);
    }
    assert forall|i: int| 0 <= i < lines.len() implies lines[0].multipv_rank <= (
    #[trigger] lines[i]).multipv_rank by {
        if i > 0 {
            assert(lines[0].multipv_rank < lines[i].multipv_rank);
        }
    }
}

/// Where `first_of_rank_one` points, and what lies before that place.
pub proof fn lemma_first_of_rank_one(lines: Seq<LineRecord>, from: int)
    requires
        0 <= from <= lines.len(),
    ensures
        from <= first_of_rank_one(lines, from) <= lines.len(),
        first_of_rank_one(lines, from) < lines.len() ==> lines[first_of_rank_one(
            lines,
            from,
        )].multipv_rank == 1,
        forall|k: int|
            from <= k < first_of_rank_one(lines, from) ==> (#[trigger] lines[k]).multipv_rank != 1,
    decreases lines.len() - from,
{
    if from < lines.len() && lines[from].multipv_rank != 1 {
        lemma_first_of_rank_one(lines, from + 1);
    }
}

/// A record that is taken into the table keeps every record in the place
/// of its rank.
pub proof fn lemma_absorbed_keeps_ranks(best: Seq<Option<InfoRecord>>, info: InfoRecord)
    requires
        ranks_in_place(best),
    ensures
        ranks_in_place(absorbed(best, info)),
        absorbed(best, info).len() == best.len(),
{
    let after = absorbed(best, info);
    assert forall|i: int| 0 <= i < after.len() implies (#[trigger] after[i] matches Some(r)
        ==> r.multipv == i + 1) by {
        if after[i] != best[i] {
            assert(i == info.multipv - 1);
        } else {
            assert(best[i] matches Some(r) ==> r.multipv == i + 1);
        }
    }
}

/// A record of a rank that the table tracks leaves the table with a record
/// for that rank that is no less deep than the record itself and than what
/// was there before. The other ranks stay as they were.
pub proof fn lemma_kept_depth_never_falls(best: Seq<Option<InfoRecord>>, info: InfoRecord)
    requires
        1 <= info.multipv <= best.len(),
    ensures
        absorbed(best, info)[info.multipv - 1] matches Some(kept) && depth_or_zero(kept)
            >= depth_or_zero(info) && (best[info.multipv - 1] matches Some(current)
            ==> depth_or_zero(kept) >= depth_or_zero(current)),
        forall|i: int|
            0 <= i < best.len() && i != info.multipv - 1 ==> #[trigger] absorbed(best, info)[i]
                == best[i],
{
}

/// Of two records of one rank, the deeper one is the one that the table
/// keeps, in whichever order the two arrive, provided the table holds
/// nothing for that rank that the deeper one does not improve on.
pub proof fn lemma_deeper_record_is_kept(
    best: Seq<Option<InfoRecord>>,
    shallow: InfoRecord,
    deep: InfoRecord,
)
    requires
        shallow.multipv == deep.multipv,
        1 <= deep.multipv <= best.len(),
        depth_or_zero(shallow) < depth_or_zero(deep),
        best[deep.multipv - 1] matches Some(current) ==> improves(deep, current),
    ensures
        absorbed(absorbed(best, shallow), deep)[deep.multipv - 1] == Some(deep),
        absorbed(absorbed(best, deep), shallow)[deep.multipv - 1] == Some(deep),
        absorbed(absorbed(best, shallow), deep) == absorbed(absorbed(best, deep), shallow),
{
    let a = absorbed(best, shallow);
    let b = absorbed(best, deep);
    assert(absorbed(a, deep) =~= absorbed(b, shallow));
}

/// Of two records of one rank and one depth, the one that carries moves is
/// the one that the table keeps over the one that carries none, in
/// whichever order the two arrive, provided the table holds nothing for
/// that rank that the one with moves does not improve on.
pub proof fn lemma_record_with_moves_is_kept(
    best: Seq<Option<InfoRecord>>,
    bare: InfoRecord,
    full: InfoRecord,
)
    requires
        bare.multipv == full.multipv,
        1 <= full.multipv <= best.len(),
        depth_or_zero(bare) == depth_or_zero(full),
        bare.pv.len() == 0,
        full.pv.len() > 0,
        best[full.multipv - 1] matches Some(current) ==> improves(full, current),
    ensures
        absorbed(absorbed(best, bare), full)[full.multipv - 1] == Some(full),
        absorbed(absorbed(best, full), bare)[full.multipv - 1] == Some(full),
        absorbed(absorbed(best, bare), full) == absorbed(absorbed(best, full), bare),
{
    let a = absorbed(best, bare);
    let b = absorbed(best, full);
    assert(absorbed(a, full) =~= absorbed(b, bare));
}

} // verus!
