//! A session with an engine whose output is at hand as a list of lines: the
//! conversation of `protocol`, held against that output from its first line
//! to whatever the conversation comes to. The line after the last one is the
//! end of the engine's output.

use vstd::prelude::*;
use crate::aggregate::{
    absorbed,
    lemma_absorbed_keeps_ranks,
    lemma_primary_is_lowest_rank,
    lemma_ranked_lines_ordered,
    nothing_recorded,
    ranked_lines,
    ranks_in_place,
    ranks_rise,
};
use crate::info::parsed_info;
use crate::protocol::{
    analysis_begun,
    analysis_closed,
    analysis_turn,
    awaited_token,
    closed_while_waiting,
    handshake_opened,
    handshake_turn,
    lemma_bestmove_without_info_fails,
    never_received,
    nothing_to_report,
    search_begun,
    Analysis,
    AnalysisState,
    AnalysisStep,
    AnalysisTurn,
    Awaited,
    Handshake,
    HandshakeStep,
    HandshakeTurn,
    ANALYSIS_LINES,
    TOKEN_WAIT_LINES,
};
use crate::text::{chars_of, push_text, same_chars, texts, trim, trimmed};
use crate::types::{is_protocol_error, AnalysisRecord, EngineAnalysis, EngineError};

verus! {

/// How a conversation ended, and the number of lines that it had taken from
/// the output by then.
pub struct Conversation<T> {
    pub outcome: Result<T, Seq<char>>,
    pub consumed: int,
}

/// The handshake `h`, held against the output from line `at` on.
pub open spec fn handshake_run(h: Handshake, output: Seq<Seq<char>>, at: int) -> Conversation<()>
    decreases output.len() - at,
{
    if at < 0 || at >= output.len() {
        Conversation { outcome: Err(closed_while_waiting(awaited_token(h.awaited))), consumed: at }
    } else {
        match handshake_turn(h, output[at]) {
            HandshakeTurn::Pending(next, _) => handshake_run(next, output, at + 1),
            HandshakeTurn::Ready => Conversation { outcome: Ok(()), consumed: at + 1 },
            HandshakeTurn::Failed(text) => Conversation { outcome: Err(text), consumed: at + 1 },
        }
    }
}

/// The analysis `s`, held against the output from line `at` on.
pub open spec fn analysis_run(s: AnalysisState, output: Seq<Seq<char>>, at: int) -> Conversation<
    AnalysisRecord,
>
    decreases output.len() - at,
{
    if at < 0 || at >= output.len() {
        Conversation { outcome: Err(analysis_closed(s)), consumed: at }
    } else {
        match analysis_turn(s, output[at]) {
            AnalysisTurn::Pending(next, _) => analysis_run(next, output, at + 1),
            AnalysisTurn::Done(a) => Conversation { outcome: Ok(a), consumed: at + 1 },
            AnalysisTurn::Failed(text) => Conversation { outcome: Err(text), consumed: at + 1 },
        }
    }
}

/// A whole session held against an output: the handshake, then one
/// analysis.
pub open spec fn session_run(output: Seq<Seq<char>>, fen: Seq<char>, depth: u32, multipv: u32)
    -> Result<AnalysisRecord, Seq<char>> {
    let opened = handshake_run(handshake_opened(), output, 0);
    match opened.outcome {
        Ok(_) => analysis_run(analysis_begun(fen, depth, multipv), output, opened.consumed).outcome,
        Err(text) => Err(text),
    }
}

/// Whether a result is what a conversation came to.
pub open spec fn analysis_result_is(
    r: Result<EngineAnalysis, EngineError>,
    outcome: Result<AnalysisRecord, Seq<char>>,
) -> bool {
    match r {
        Ok(a) => outcome == Ok::<AnalysisRecord, Seq<char>>(a@),
        Err(e) => outcome matches Err(text) && is_protocol_error(e, text),
    }
}

/// A session whose handshake is complete. It remembers how much of the
/// engine's output its conversations have taken.
pub struct EngineSession {
    consumed: usize,
}

impl EngineSession {
    /// The number of lines of output that the session has taken.
    pub closed spec fn consumed(&self) -> nat {
        self.consumed as nat
    }

    /// The number of lines of output that the session has taken.
    pub fn lines_consumed(&self) -> (n: usize)
        ensures
            n == self.consumed(),
    {
        self.consumed
    }

    /// Holds the handshake against `output`. There is a session if and only
    /// if the handshake succeeds.
    pub fn start(output: &Vec<String>) -> (r: Result<EngineSession, EngineError>)
        ensures
            ({
                let run = handshake_run(handshake_opened(), texts(output@), 0);
                match r {
                    Ok(session) => run.outcome is Ok && session.consumed() == run.consumed,
                    Err(e) => run.outcome matches Err(text) && is_protocol_error(e, text),
                }
            }),
    {
        let (mut h, _) = Handshake::begin();
        let mut at: usize = 0;
        let ghost lines = texts(output@);
        loop
            invariant
                lines == texts(output@),
                at <= output.len(),
                handshake_run(h, lines, at as int) == handshake_run(handshake_opened(), lines, 0),
            decreases output.len() - at,
        {
            if at >= output.len() {
                return Err(h.on_eof());
            }
            assert(lines[at as int] == output@[at as int]@);
            match h.on_line(output[at].as_str()) {
                HandshakeStep::Pending { next, .. } => {
                    h = next;
                    at += 1;
                },
                HandshakeStep::Ready => {
                    return Ok(EngineSession { consumed: at + 1 });
                },
                HandshakeStep::Failed(e) => {
                    return Err(e);
                },
            }
        }
    }

    /// Holds one analysis of the position `fen`, for the best line only,
    /// against what is left of `output`.
    pub fn analyze(&mut self, output: &Vec<String>, fen: &str, depth: u32) -> (r: Result<
        EngineAnalysis,
        EngineError,
    >)
        ensures
            ({
                let run = analysis_run(
                    analysis_begun(fen@, depth, 1),
                    texts(output@),
                    old(self).consumed() as int,
                );
                analysis_result_is(r, run.outcome) && final(self).consumed() == run.consumed
            }),
    {
        self.analyze_multipv(output, fen, depth, 1)
    }

    /// Holds one analysis of the position `fen`, for `multipv` ranked lines,
    /// against what is left of `output`.
    pub fn analyze_multipv(&mut self, output: &Vec<String>, fen: &str, depth: u32, multipv: u32)
        -> (r: Result<EngineAnalysis, EngineError>)
        ensures
            ({
                let run = analysis_run(
                    analysis_begun(fen@, depth, multipv),
                    texts(output@),
                    old(self).consumed() as int,
                );
                analysis_result_is(r, run.outcome) && final(self).consumed() == run.consumed
            }),
    {
        let (mut analysis, _) = Analysis::begin(fen, depth, multipv);
        let mut at: usize = self.consumed;
        let ghost lines = texts(output@);
        let ghost begun = analysis_begun(fen@, depth, multipv);
        let ghost from = self.consumed as int;
        loop
            invariant
                lines == texts(output@),
                begun == analysis_begun(fen@, depth, multipv),
                from == old(self).consumed() as int,
                from <= at,
                at <= output.len() || at == from,
                analysis_run(analysis@, lines, at as int) == analysis_run(begun, lines, from),
            decreases output.len() - at,
        {
            if at >= output.len() {
                self.consumed = at;
                return Err(analysis.on_eof());
            }
            assert(lines[at as int] == output@[at as int]@);
            match analysis.on_line(output[at].as_str()) {
                AnalysisStep::Pending { next, .. } => {
                    analysis = next;
                    at += 1;
                },
                AnalysisStep::Done(a) => {
                    self.consumed = at + 1;
                    return Ok(a);
                },
                AnalysisStep::Failed(e) => {
                    self.consumed = at + 1;
                    return Err(e);
                },
            }
        }
    }
}

/// Holds a whole session against `output` and analyses the position `fen`
/// for the best line only.
pub fn analyze_position(output: &Vec<String>, fen: &str, depth: u32) -> (r: Result<
    EngineAnalysis,
    EngineError,
>)
    ensures
        analysis_result_is(r, session_run(texts(output@), fen@, depth, 1)),
{
    analyze_position_multipv(output, fen, depth, 1)
}

/// Holds a whole session against `output` and analyses the position `fen`
/// for `multipv` ranked lines.
pub fn analyze_position_multipv(output: &Vec<String>, fen: &str, depth: u32, multipv: u32) -> (r:
    Result<EngineAnalysis, EngineError>)
    ensures
        analysis_result_is(r, session_run(texts(output@), fen@, depth, multipv)),
{
    match EngineSession::start(output) {
        Ok(session) => {
            let mut session = session;
            session.analyze_multipv(output, fen, depth, multipv)
        },
        Err(e) => Err(e),
    }
}

/// The wait for `token` on the output from line `at` on, for at most
/// `max_lines` lines. The wait succeeds at the first line that, trimmed,
/// is the token. It fails where the output ends before that, and where
/// `max_lines` lines went by without the token.
pub open spec fn token_wait(output: Seq<Seq<char>>, at: int, token: Seq<char>, max_lines: nat)
    -> Conversation<()>
    decreases max_lines,
{
    if max_lines == 0 {
        Conversation { outcome: Err(never_received(token)), consumed: at }
    } else if at < 0 || at >= output.len() {
        Conversation { outcome: Err(closed_while_waiting(token)), consumed: at }
    } else if trimmed(output[at]) == token {
        Conversation { outcome: Ok(()), consumed: at + 1 }
    } else {
        token_wait(output, at + 1, token, (max_lines - 1) as nat)
    }
}

/// Waits for `token` on the output from line `from` on, for at most
/// `max_lines` lines, and says where the output goes on after the token.
pub fn wait_for_uci_token(output: &Vec<String>, from: usize, token: &str, max_lines: usize) -> (r:
    Result<usize, EngineError>)
    ensures
        ({
            let wait = token_wait(texts(output@), from as int, token@, max_lines as nat);
            match r {
                Ok(next) => wait.outcome is Ok && wait.consumed == next,
                Err(e) => wait.outcome matches Err(text) && is_protocol_error(e, text),
            }
        }),
{
    let wanted = chars_of(token);
    let mut at: usize = from;
    let mut left: usize = max_lines;
    let ghost lines = texts(output@);
    while left > 0
        invariant
            lines == texts(output@),
            wanted@ == token@,
            from <= at,
            at <= output.len() || at == from,
            token_wait(lines, at as int, token@, left as nat) == token_wait(
                lines,
                from as int,
                token@,
                max_lines as nat,
            ),
        decreases left,
    {
        if at >= output.len() {
            let mut text = String::new();
            push_text(&mut text, "engine closed output while waiting for '");
            push_text(&mut text, token);
            push_text(&mut text, "'");
            return Err(EngineError::Protocol(text));
        }
        assert(lines[at as int] == output@[at as int]@);
        let chars = chars_of(output[at].as_str());
        let t = trim(&chars);
        if same_chars(&t, &wanted) {
            return Ok(at + 1);
        }
        at += 1;
        left -= 1;
    }
    let mut text = String::new();
    push_text(&mut text, "did not receive '");
    push_text(&mut text, token);
    push_text(&mut text, "' from engine");
    Err(EngineError::Protocol(text))
}

/// Holds the search of one analysis of the position `fen` against the
/// output from line `from` on: takes the records of the ranks asked for,
/// up to the line that begins with `bestmove`, and builds the analysis.
/// The second part of the answer says where the output goes on.
pub fn collect_analysis_result(
    output: &Vec<String>,
    from: usize,
    fen: &str,
    requested_depth: u32,
    requested_multipv: u32,
) -> (r: (Result<EngineAnalysis, EngineError>, usize))
    ensures
        ({
            let run = analysis_run(
                search_begun(fen@, requested_depth, requested_multipv),
                texts(output@),
                from as int,
            );
            analysis_result_is(r.0, run.outcome) && r.1 == run.consumed
        }),
{
    let mut analysis = Analysis::searching(fen, requested_depth, requested_multipv);
    let mut at: usize = from;
    let ghost lines = texts(output@);
    let ghost begun = search_begun(fen@, requested_depth, requested_multipv);
    loop
        invariant
            lines == texts(output@),
            begun == search_begun(fen@, requested_depth, requested_multipv),
            from <= at,
            at <= output.len() || at == from,
            analysis_run(analysis@, lines, at as int) == analysis_run(begun, lines, from as int),
        decreases output.len() - at,
    {
        if at >= output.len() {
            return (Err(analysis.on_eof()), at);
        }
        assert(lines[at as int] == output@[at as int]@);
        match analysis.on_line(output[at].as_str()) {
            AnalysisStep::Pending { next, .. } => {
                analysis = next;
                at += 1;
            },
            AnalysisStep::Done(a) => {
                return (Ok(a), at + 1);
            },
            AnalysisStep::Failed(e) => {
                return (Err(e), at + 1);
            },
        }
    }
}

/// A handshake at any stage is the wait for the token of that stage,
/// followed, where the token is `uciok`, by the next stage.
pub proof fn lemma_handshake_stage_is_a_wait(h: Handshake, output: Seq<Seq<char>>, at: int)
    requires
        h.left >= 1,
        0 <= at,
    ensures
        handshake_run(h, output, at) == ({
            let wait = token_wait(output, at, awaited_token(h.awaited), h.left as nat);
            match wait.outcome {
                Ok(_) => match h.awaited {
                    Awaited::UciOk => handshake_run(
                        Handshake { awaited: Awaited::ReadyOk, left: TOKEN_WAIT_LINES },
                        output,
                        wait.consumed,
                    ),
                    Awaited::ReadyOk => wait,
                },
                Err(_) => wait,
            }
        }),
    decreases output.len() - at,
{
    if at < output.len() {
        match handshake_turn(h, output[at]) {
            HandshakeTurn::Pending(next, _) => {
                if trimmed(output[at]) != awaited_token(h.awaited) {
                    lemma_handshake_stage_is_a_wait(next, output, at + 1);
                }
            },
            HandshakeTurn::Ready => {},
            HandshakeTurn::Failed(_) => {
                assert(h.left == 1);
                reveal_with_fuel(token_wait, 2);
            },
        }
    }
}

/// The whole handshake is two waits, one after the other: for `uciok`,
/// then for `readyok`, each for at most `TOKEN_WAIT_LINES` lines.
pub proof fn lemma_handshake_is_two_waits(output: Seq<Seq<char>>)
    ensures
        handshake_run(handshake_opened(), output, 0) == ({
            let first = token_wait(output, 0, "uciok"@, TOKEN_WAIT_LINES as nat);
            match first.outcome {
                Ok(_) => token_wait(output, first.consumed, "readyok"@, TOKEN_WAIT_LINES as nat),
                Err(_) => first,
            }
        }),
{
    lemma_handshake_stage_is_a_wait(handshake_opened(), output, 0);
    let first = token_wait(output, 0, "uciok"@, TOKEN_WAIT_LINES as nat);
    if first.outcome is Ok {
        lemma_token_wait_advances(output, 0, "uciok"@, TOKEN_WAIT_LINES as nat);
        lemma_handshake_stage_is_a_wait(
            Handshake { awaited: Awaited::ReadyOk, left: TOKEN_WAIT_LINES },
            output,
            first.consumed,
        );
    }
}

/// A wait never goes back in the output, and a wait that succeeds has
/// taken a line.
pub proof fn lemma_token_wait_advances(
    output: Seq<Seq<char>>,
    at: int,
    token: Seq<char>,
    max_lines: nat,
)
    requires
        0 <= at,
    ensures
        token_wait(output, at, token, max_lines).consumed >= at,
        token_wait(output, at, token, max_lines).outcome is Ok ==> at < token_wait(
            output,
            at,
            token,
            max_lines,
        ).consumed <= output.len(),
    decreases max_lines,
{
    if max_lines > 0 && at < output.len() && trimmed(output[at]) != token {
        lemma_token_wait_advances(output, at + 1, token, (max_lines - 1) as nat);
    }
}

/// An analysis before its search is the wait for `readyok`, followed by
/// the search.
pub proof fn lemma_analysis_is_a_wait_then_the_search(
    s: AnalysisState,
    output: Seq<Seq<char>>,
    at: int,
)
    requires
        !s.searching,
        s.left >= 1,
        0 <= at,
    ensures
        analysis_run(s, output, at) == ({
            let wait = token_wait(output, at, "readyok"@, s.left as nat);
            match wait.outcome {
                Ok(_) => analysis_run(
                    AnalysisState { searching: true, left: ANALYSIS_LINES, ..s },
                    output,
                    wait.consumed,
                ),
                Err(text) => Conversation { outcome: Err(text), consumed: wait.consumed },
            }
        }),
    decreases output.len() - at,
{
    if at < output.len() {
        match analysis_turn(s, output[at]) {
            AnalysisTurn::Pending(next, _) => {
                if trimmed(output[at]) != "readyok"@ {
                    lemma_analysis_is_a_wait_then_the_search(next, output, at + 1);
                }
            },
            AnalysisTurn::Done(_) => {},
            AnalysisTurn::Failed(_) => {
                assert(s.left == 1);
                reveal_with_fuel(token_wait, 2);
            },
        }
    }
}

/// Whether the records of a state sit in the places of their ranks.
pub open spec fn state_in_order(s: AnalysisState) -> bool {
    ranks_in_place(s.best)
}

/// An analysis starts in order, and a line leaves it in order.
pub proof fn lemma_analysis_stays_in_order(s: AnalysisState, line: Seq<char>)
    requires
        state_in_order(s),
    ensures
        analysis_turn(s, line) matches AnalysisTurn::Pending(next, _) ==> state_in_order(next)
            && next.best.len() == s.best.len() && next.fen == s.fen && next.depth == s.depth,
        forall|fen: Seq<char>, depth: u32, multipv: u32|
            state_in_order(#[trigger] analysis_begun(fen, depth, multipv)),
{
    match parsed_info(trimmed(line)) {
        Some(info) => {
            lemma_absorbed_keeps_ranks(s.best, info);
        },
        None => {},
    }
}

/// An analysis that is done has a line; its ranks are within the width
/// asked for and rise strictly, so none occurs twice; and its depth, its
/// scores and its moves are those of its first line, which has the lowest
/// rank.
pub proof fn lemma_done_analysis_is_sound(s: AnalysisState, line: Seq<char>)
    requires
        state_in_order(s),
    ensures
        analysis_turn(s, line) matches AnalysisTurn::Done(a) ==> {
            &&& a.lines.len() > 0
            &&& a.lines.len() <= s.best.len()
            &&& ranks_rise(a.lines)
            &&& forall|i: int|
                0 <= i < a.lines.len() ==> 1 <= (#[trigger] a.lines[i]).multipv_rank
                    <= s.best.len()
            &&& a.depth == a.lines[0].depth
            &&& a.score_cp == a.lines[0].score_cp
            &&& a.score_mate == a.lines[0].score_mate
            &&& a.pv == a.lines[0].pv
        },
{
    let lines = ranked_lines(s.best, s.best.len() as int, s.fen, s.depth);
    lemma_ranked_lines_ordered(s.best, s.best.len() as int, s.fen, s.depth);
    if lines.len() > 0 {
        lemma_primary_is_lowest_rank(lines);
    }
}

/// Whether a line can put nothing into a table of `width` ranks and does
/// not end the search: it reports nothing and does not begin with
/// `bestmove`, or what it reports has a rank of zero or beyond the width.
pub open spec fn unusable_line(line: Seq<char>, width: int) -> bool {
    match parsed_info(trimmed(line)) {
        Some(info) => info.multipv == 0 || info.multipv > width,
        None => !"bestmove"@.is_prefix_of(trimmed(line)),
    }
}

/// A search whose output comes to the `bestmove` line at `end` without one
/// usable line before it fails for want of analysis.
pub proof fn lemma_search_without_info_fails(
    s: AnalysisState,
    output: Seq<Seq<char>>,
    at: int,
    end: int,
)
    requires
        s.searching,
        nothing_recorded(s.best),
        0 <= at <= end < output.len(),
        end - at < s.left,
        forall|k: int| at <= k < end ==> unusable_line(#[trigger] output[k], s.best.len() as int),
        parsed_info(trimmed(output[end])) is None,
        "bestmove"@.is_prefix_of(trimmed(output[end])),
    ensures
        analysis_run(s, output, at).outcome == Err::<AnalysisRecord, Seq<char>>(
            nothing_to_report(),
        ),
        analysis_run(s, output, at).consumed == end + 1,
    decreases end - at,
{
    if at == end {
        lemma_bestmove_without_info_fails(s, output[at]);
    } else {
        assert(unusable_line(output[at], s.best.len() as int));
        let next = AnalysisState { left: (s.left - 1) as u32, ..s };
        assert(analysis_turn(s, output[at]) == AnalysisTurn::Pending(next, Seq::empty())) by {
            match parsed_info(trimmed(output[at])) {
                Some(info) => {
                    assert(crate::aggregate::absorbed(s.best, info) == s.best);
                },
                None => {},
            }
        }
        lemma_search_without_info_fails(next, output, at + 1, end);
    }
}

/// An analysis whose output comes to `readyok` at the line `ready`, and
/// from there to the `bestmove` line at `end` without one usable line
/// before it, fails for want of analysis.
pub proof fn lemma_analysis_without_info_fails(
    fen: Seq<char>,
    depth: u32,
    multipv: u32,
    output: Seq<Seq<char>>,
    at: int,
    ready: int,
    end: int,
)
    requires
        0 <= at <= ready < end < output.len(),
        ready - at < TOKEN_WAIT_LINES,
        end - ready <= ANALYSIS_LINES,
        forall|k: int| at <= k < ready ==> trimmed(#[trigger] output[k]) != "readyok"@,
        trimmed(output[ready]) == "readyok"@,
        forall|k: int|
            ready < k < end ==> unusable_line(
                #[trigger] output[k],
                analysis_begun(fen, depth, multipv).best.len() as int,
            ),
        parsed_info(trimmed(output[end])) is None,
        "bestmove"@.is_prefix_of(trimmed(output[end])),
    ensures
        analysis_run(analysis_begun(fen, depth, multipv), output, at).outcome == Err::<
            AnalysisRecord,
            Seq<char>,
        >(nothing_to_report()),
{
    let begun = analysis_begun(fen, depth, multipv);
    lemma_analysis_is_a_wait_then_the_search(begun, output, at);
    lemma_token_wait_finds(output, at, ready, "readyok"@, TOKEN_WAIT_LINES as nat);
    let searching = AnalysisState { searching: true, left: ANALYSIS_LINES, ..begun };
    lemma_search_without_info_fails(searching, output, ready + 1, end);
}

/// A wait that has lines enough ends at the first line that, trimmed, is
/// the token.
pub proof fn lemma_token_wait_finds(
    output: Seq<Seq<char>>,
    at: int,
    found: int,
    token: Seq<char>,
    max_lines: nat,
)
    requires
        0 <= at <= found < output.len(),
        found - at < max_lines,
        forall|k: int| at <= k < found ==> trimmed(#[trigger] output[k]) != token,
        trimmed(output[found]) == token,
    ensures
        token_wait(output, at, token, max_lines) == (Conversation::<()> {
            outcome: Ok(()),
            consumed: found + 1,
        }),
    decreases found - at,
{
    if at < found {
        lemma_token_wait_finds(output, at + 1, found, token, (max_lines - 1) as nat);
    }
}

} // verus!
