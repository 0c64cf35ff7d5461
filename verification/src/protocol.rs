//! The conversation with an analysis engine, as two state machines that
//! never touch the engine themselves. A driver writes the commands that a
//! machine hands out, reads the engine's output line by line, and feeds
//! each line back: `Handshake` for the startup exchange, `Analysis` for one
//! analysis request.

use vstd::prelude::*;
use crate::aggregate::{
    absorbed,
    depth_used,
    line_of,
    normalized_depth,
    normalized_multipv,
    nothing_recorded,
    ranked_lines,
    summarize,
    summary_of,
    width_used,
    RankTable,
    DEFAULT_DEPTH,
    MAX_MULTIPV,
};
use crate::info::{parse_info_chars, parsed_info, InfoRecord};
use crate::number::{decimal_text, push_decimal};
use crate::text::{
    chars_of,
    is_literal,
    optional_view,
    push_text,
    rows,
    split_words,
    starts_with,
    string_from,
    texts,
    trim,
    trimmed,
    words,
};
use crate::types::{is_protocol_error, AnalysisRecord, EngineAnalysis, EngineError};

verus! {

/// How many lines a machine reads while it waits for an acknowledgement.
pub const TOKEN_WAIT_LINES: u32 = 20_000;

/// How many lines a machine reads while the engine searches.
pub const ANALYSIS_LINES: u32 = 50_000;

/// The command that sets the number of ranked variations.
pub open spec fn multipv_command(width: u32) -> Seq<char> {
    "setoption name MultiPV value "@ + decimal_text(width as nat)
}

/// The command that sets the position to analyse.
pub open spec fn position_command(fen: Seq<char>) -> Seq<char> {
    "position fen "@ + fen
}

/// The command that starts a search to a depth.
pub open spec fn go_command(depth: u32) -> Seq<char> {
    "go depth "@ + decimal_text(depth as nat)
}

/// The error text for an output that ends while `token` is awaited.
pub open spec fn closed_while_waiting(token: Seq<char>) -> Seq<char> {
    "engine closed output while waiting for '"@ + token + "'"@
}

/// The error text for a `token` that did not come within the lines allowed.
pub open spec fn never_received(token: Seq<char>) -> Seq<char> {
    "did not receive '"@ + token + "' from engine"@
}

/// The error text for an output that ends during a search.
pub open spec fn closed_while_searching() -> Seq<char> {
    "engine closed output before sending bestmove"@
}

/// The error text for a search that ends without a usable record.
pub open spec fn nothing_to_report() -> Seq<char> {
    "engine returned no analysis info for this position"@
}

fn multipv_command_text(width: u32) -> (s: String)
    ensures
        s@ == multipv_command(width),
{
    let mut s = String::new();
    push_text(&mut s, "setoption name MultiPV value ");
    push_decimal(&mut s, width as u64);
    s
}

fn position_command_text(fen: &str) -> (s: String)
    ensures
        s@ == position_command(fen@),
{
    let mut s = String::new();
    push_text(&mut s, "position fen ");
    push_text(&mut s, fen);
    s
}

fn go_command_text(depth: u32) -> (s: String)
    ensures
        s@ == go_command(depth),
{
    let mut s = String::new();
    push_text(&mut s, "go depth ");
    push_decimal(&mut s, depth as u64);
    s
}

fn closed_while_waiting_error(token: &str) -> (e: EngineError)
    ensures
        is_protocol_error(e, closed_while_waiting(token@)),
{
    let mut s = String::new();
    push_text(&mut s, "engine closed output while waiting for '");
    push_text(&mut s, token);
    push_text(&mut s, "'");
    EngineError::Protocol(s)
}

fn never_received_error(token: &str) -> (e: EngineError)
    ensures
        is_protocol_error(e, never_received(token@)),
{
    let mut s = String::new();
    push_text(&mut s, "did not receive '");
    push_text(&mut s, token);
    push_text(&mut s, "' from engine");
    EngineError::Protocol(s)
}

fn protocol_error(text: &str) -> (e: EngineError)
    ensures
        is_protocol_error(e, text@),
{
    EngineError::Protocol(text.to_owned())
}

/// The command that ends the engine. A driver sends it when it lets go of
/// the engine, whatever the conversation had come to.
pub fn quit_command() -> (s: String)
    ensures
        s@ == "quit"@,
{
    "quit".to_owned()
}

/// The acknowledgement that a handshake waits for.
#[derive(Debug, Clone, Copy)]
pub enum Awaited {
    UciOk,
    ReadyOk,
}

/// The text of an acknowledgement.
pub open spec fn awaited_token(awaited: Awaited) -> Seq<char> {
    match awaited {
        Awaited::UciOk => "uciok"@,
        Awaited::ReadyOk => "readyok"@,
    }
}

/// The startup exchange: the capability query and its acknowledgement,
/// then the readiness check and its acknowledgement.
#[derive(Debug, Clone, Copy)]
pub struct Handshake {
    /// The acknowledgement that is awaited.
    pub awaited: Awaited,
    /// The lines that may still be read before the wait is given up.
    pub left: u32,
}

/// What a handshake asks of its driver after a line.
pub enum HandshakeStep {
    /// Send the commands, in order, then read a line and feed it to `next`.
    Pending { next: Handshake, send: Vec<String> },
    /// The engine is ready: the handshake is over.
    Ready,
    /// The handshake failed.
    Failed(EngineError),
}

/// The mathematical value of a `HandshakeStep`.
pub enum HandshakeTurn {
    Pending(Handshake, Seq<Seq<char>>),
    Ready,
    Failed(Seq<char>),
}

/// The handshake at its start.
pub open spec fn handshake_opened() -> Handshake {
    Handshake { awaited: Awaited::UciOk, left: TOKEN_WAIT_LINES }
}

/// What a handshake does with a line. A line that, trimmed, is the awaited
/// acknowledgement moves the handshake on; any other is passed over, until
/// the last line allowed has been read.
pub open spec fn handshake_turn(h: Handshake, line: Seq<char>) -> HandshakeTurn {
    if trimmed(line) == awaited_token(h.awaited) {
        match h.awaited {
            Awaited::UciOk => HandshakeTurn::Pending(
                Handshake { awaited: Awaited::ReadyOk, left: TOKEN_WAIT_LINES },
                seq!["isready"@],
            ),
            Awaited::ReadyOk => HandshakeTurn::Ready,
        }
    } else if h.left <= 1 {
        HandshakeTurn::Failed(never_received(awaited_token(h.awaited)))
    } else {
        HandshakeTurn::Pending(
            Handshake { awaited: h.awaited, left: (h.left - 1) as u32 },
            Seq::empty(),
        )
    }
}

/// Whether a step is what a turn says.
pub open spec fn handshake_step_is(step: HandshakeStep, turn: HandshakeTurn) -> bool {
    match step {
        HandshakeStep::Pending { next, send } => turn == HandshakeTurn::Pending(
            next,
            texts(send@),
        ),
        HandshakeStep::Ready => turn == HandshakeTurn::Ready,
        HandshakeStep::Failed(e) => turn matches HandshakeTurn::Failed(text) && is_protocol_error(
            e,
            text,
        ),
    }
}

impl Handshake {
    /// Opens the handshake: the machine, and the command to send first.
    pub fn begin() -> (r: (Handshake, Vec<String>))
        ensures
            r.0 == handshake_opened(),
            texts(r.1@) == seq!["uci"@],
    {
        let mut send: Vec<String> = Vec::new();
        let first = "uci".to_owned();
        assert(texts(send@.push(first)) == seq![first@]);
        send.push(first);
        (Handshake { awaited: Awaited::UciOk, left: TOKEN_WAIT_LINES }, send)
    }

    fn token(&self) -> (t: &'static str)
        ensures
            t@ == awaited_token(self.awaited),
    {
        match self.awaited {
            Awaited::UciOk => "uciok",
            Awaited::ReadyOk => "readyok",
        }
    }

    /// Takes one line of the engine's output.
    pub fn on_line(self, line: &str) -> (step: HandshakeStep)
        ensures
            handshake_step_is(step, handshake_turn(self, line@)),
    {
        let chars = chars_of(line);
        let t = trim(&chars);
        if is_literal(&t, self.token()) {
            match self.awaited {
                Awaited::UciOk => {
                    let mut send: Vec<String> = Vec::new();
                    let next = "isready".to_owned();
                    assert(texts(send@.push(next)) == seq![next@]);
                    send.push(next);
                    HandshakeStep::Pending {
                        next: Handshake { awaited: Awaited::ReadyOk, left: TOKEN_WAIT_LINES },
                        send,
                    }
                },
                Awaited::ReadyOk => HandshakeStep::Ready,
            }
        } else if self.left <= 1 {
            HandshakeStep::Failed(never_received_error(self.token()))
        } else {
            let send: Vec<String> = Vec::new();
            assert(texts(send@) == Seq::<Seq<char>>::empty());
            HandshakeStep::Pending {
                next: Handshake { awaited: self.awaited, left: self.left - 1 },
                send,
            }
        }
    }

    /// The error of an output that ended during the handshake.
    pub fn on_eof(self) -> (e: EngineError)
        ensures
            is_protocol_error(e, closed_while_waiting(awaited_token(self.awaited))),
    {
        closed_while_waiting_error(self.token())
    }
}

/// One analysis request in flight: first the wait for the engine to have
/// taken the options, then the search.
pub struct Analysis {
    searching: bool,
    left: u32,
    fen: String,
    depth: u32,
    best: RankTable,
}

/// The mathematical value of an `Analysis`.
pub struct AnalysisState {
    /// Whether the search has been started.
    pub searching: bool,
    /// The lines that may still be read in this phase.
    pub left: u32,
    /// The position under analysis.
    pub fen: Seq<char>,
    /// The depth that was asked for, normalized.
    pub depth: u32,
    /// The best record of each rank, for as many ranks as were asked for.
    pub best: Seq<Option<InfoRecord>>,
}

impl View for Analysis {
    type V = AnalysisState;

    closed spec fn view(&self) -> AnalysisState {
        AnalysisState {
            searching: self.searching,
            left: self.left,
            fen: self.fen@,
            depth: self.depth,
            best: self.best@,
        }
    }
}

/// What an analysis asks of its driver after a line.
pub enum AnalysisStep {
    /// Send the commands, in order, then read a line and feed it to `next`.
    Pending { next: Analysis, send: Vec<String> },
    /// The analysis is complete.
    Done(EngineAnalysis),
    /// The analysis failed.
    Failed(EngineError),
}

/// The mathematical value of an `AnalysisStep`.
pub enum AnalysisTurn {
    Pending(AnalysisState, Seq<Seq<char>>),
    Done(AnalysisRecord),
    Failed(Seq<char>),
}

/// An analysis at its start.
pub open spec fn analysis_begun(fen: Seq<char>, depth: u32, multipv: u32) -> AnalysisState {
    AnalysisState {
        searching: false,
        left: TOKEN_WAIT_LINES,
        fen,
        depth: depth_used(depth),
        best: Seq::new(width_used(multipv) as nat, |i: int| None),
    }
}

/// An analysis whose search has just been started.
pub open spec fn search_begun(fen: Seq<char>, depth: u32, multipv: u32) -> AnalysisState {
    AnalysisState { searching: true, left: ANALYSIS_LINES, ..analysis_begun(fen, depth, multipv) }
}

/// The commands that open an analysis.
pub open spec fn opening_commands(multipv: u32) -> Seq<Seq<char>> {
    seq![multipv_command(width_used(multipv)), "isready"@]
}

/// The width that is sent to the engine is within `1..=MAX_MULTIPV`,
/// whatever width is asked for, and it is the width asked for where that is
/// within the range. It is also the number of ranks that are tracked.
pub proof fn lemma_width_sent_is_in_range(fen: Seq<char>, depth: u32, multipv: u32)
    ensures
        1 <= width_used(multipv) <= MAX_MULTIPV,
        1 <= multipv <= MAX_MULTIPV ==> width_used(multipv) == multipv,
        opening_commands(multipv)[0] == multipv_command(width_used(multipv)),
        analysis_begun(fen, depth, multipv).best.len() == width_used(multipv),
{
}

/// The depth that is sent to the engine is at least 1: the default depth
/// for depth zero, and else the depth asked for. It is also the depth of
/// every line whose record reports none.
pub proof fn lemma_depth_sent_is_positive(fen: Seq<char>, depth: u32, multipv: u32, line: Seq<char>)
    requires
        trimmed(line) == "readyok"@,
    ensures
        depth_used(depth) >= 1,
        depth_used(0) == DEFAULT_DEPTH,
        depth != 0 ==> depth_used(depth) == depth,
        analysis_turn(analysis_begun(fen, depth, multipv), line) matches AnalysisTurn::Pending(
            next,
            send,
        ) && send == seq![position_command(fen), go_command(depth_used(depth))] && next.depth
            == depth_used(depth),
        forall|info: InfoRecord|
            info.depth is None ==> (#[trigger] line_of(info, fen, depth_used(depth))).depth
                == depth_used(depth),
{
}

/// The move that a `bestmove` line announces: its second word, unless
/// that is `(none)`.
pub open spec fn announced_move(line: Seq<char>) -> Option<Seq<char>> {
    let all = words(line);
    if all.len() > 1 && all[1] != "(none)"@ {
        Some(all[1])
    } else {
        None
    }
}

/// The turn after a line that did not end the search.
pub open spec fn search_goes_on(s: AnalysisState) -> AnalysisTurn {
    if s.left <= 1 {
        AnalysisTurn::Failed(never_received("bestmove"@))
    } else {
        AnalysisTurn::Pending(AnalysisState { left: (s.left - 1) as u32, ..s }, Seq::empty())
    }
}

/// The turn that ends the search.
pub open spec fn search_concluded(s: AnalysisState, announced: Option<Seq<char>>) -> AnalysisTurn {
    match summary_of(ranked_lines(s.best, s.best.len() as int, s.fen, s.depth), announced) {
        Some(a) => AnalysisTurn::Done(a),
        None => AnalysisTurn::Failed(nothing_to_report()),
    }
}

/// What an analysis does with a line. Before the search, the line that,
/// trimmed, is `readyok` starts the search. During the search, a line that
/// reports something is taken into the table, a line that begins with
/// `bestmove` ends the search, and any other line is passed over.
pub open spec fn analysis_turn(s: AnalysisState, line: Seq<char>) -> AnalysisTurn {
    let t = trimmed(line);
    if !s.searching {
        if t == "readyok"@ {
            AnalysisTurn::Pending(
                AnalysisState { searching: true, left: ANALYSIS_LINES, ..s },
                seq![position_command(s.fen), go_command(s.depth)],
            )
        } else if s.left <= 1 {
            AnalysisTurn::Failed(never_received("readyok"@))
        } else {
            AnalysisTurn::Pending(AnalysisState { left: (s.left - 1) as u32, ..s }, Seq::empty())
        }
    } else {
        match parsed_info(t) {
            Some(info) => search_goes_on(AnalysisState { best: absorbed(s.best, info), ..s }),
            None => if "bestmove"@.is_prefix_of(t) {
                search_concluded(s, announced_move(t))
            } else {
                search_goes_on(s)
            },
        }
    }
}

/// The error text of an output that ends during an analysis.
pub open spec fn analysis_closed(s: AnalysisState) -> Seq<char> {
    if s.searching {
        closed_while_searching()
    } else {
        closed_while_waiting("readyok"@)
    }
}

/// Whether a step is what a turn says.
pub open spec fn analysis_step_is(step: AnalysisStep, turn: AnalysisTurn) -> bool {
    match step {
        AnalysisStep::Pending { next, send } => turn == AnalysisTurn::Pending(next@, texts(send@)),
        AnalysisStep::Done(a) => turn == AnalysisTurn::Done(a@),
        AnalysisStep::Failed(e) => turn matches AnalysisTurn::Failed(text) && is_protocol_error(
            e,
            text,
        ),
    }
}

impl Analysis {
    /// Opens an analysis of the position `fen`: the machine, and the
    /// commands to send first. A depth of zero stands for the default depth,
    /// and the width is brought into `1..=MAX_MULTIPV`.
    pub fn begin(fen: &str, depth: u32, multipv: u32) -> (r: (Analysis, Vec<String>))
        ensures
            r.0@ == analysis_begun(fen@, depth, multipv),
            texts(r.1@) == opening_commands(multipv),
    {
        let depth = normalized_depth(depth);
        let width = normalized_multipv(multipv);
        let best = RankTable::new(width);
        let mut send: Vec<String> = Vec::new();
        let first = multipv_command_text(width);
        let second = "isready".to_owned();
        send.push(first);
        send.push(second);
        assert(texts(send@) == seq![first@, second@]);
        let analysis = Analysis {
            searching: false,
            left: TOKEN_WAIT_LINES,
            fen: fen.to_owned(),
            depth,
            best,
        };
        (analysis, send)
    }

    /// An analysis of the position `fen` whose search has just been
    /// started.
    pub fn searching(fen: &str, depth: u32, multipv: u32) -> (analysis: Analysis)
        ensures
            analysis@ == search_begun(fen@, depth, multipv),
    {
        Analysis {
            searching: true,
            left: ANALYSIS_LINES,
            fen: fen.to_owned(),
            depth: normalized_depth(depth),
            best: RankTable::new(normalized_multipv(multipv)),
        }
    }

    fn goes_on(self) -> (step: AnalysisStep)
        ensures
            analysis_step_is(step, search_goes_on(self@)),
    {
        if self.left <= 1 {
            AnalysisStep::Failed(never_received_error("bestmove"))
        } else {
            let send: Vec<String> = Vec::new();
            assert(texts(send@) == Seq::<Seq<char>>::empty());
            let next = Analysis {
                searching: self.searching,
                left: self.left - 1,
                fen: self.fen,
                depth: self.depth,
                best: self.best,
            };
            AnalysisStep::Pending { next, send }
        }
    }

    /// Takes one line of the engine's output.
    pub fn on_line(self, line: &str) -> (step: AnalysisStep)
        ensures
            analysis_step_is(step, analysis_turn(self@, line@)),
    {
        let chars = chars_of(line);
        let t = trim(&chars);
        if !self.searching {
            if is_literal(&t, "readyok") {
                let mut send: Vec<String> = Vec::new();
                let first = position_command_text(self.fen.as_str());
                let second = go_command_text(self.depth);
                send.push(first);
                send.push(second);
                assert(texts(send@) == seq![first@, second@]);
                let next = Analysis {
                    searching: true,
                    left: ANALYSIS_LINES,
                    fen: self.fen,
                    depth: self.depth,
                    best: self.best,
                };
                AnalysisStep::Pending { next, send }
            } else if self.left <= 1 {
                AnalysisStep::Failed(never_received_error("readyok"))
            } else {
                let send: Vec<String> = Vec::new();
                assert(texts(send@) == Seq::<Seq<char>>::empty());
                let next = Analysis {
                    searching: false,
                    left: self.left - 1,
                    fen: self.fen,
                    depth: self.depth,
                    best: self.best,
                };
                AnalysisStep::Pending { next, send }
            }
        } else {
            match parse_info_chars(&t) {
                Some(info) => {
                    let mut next = self;
                    next.best.observe(info);
                    next.goes_on()
                },
                None => {
                    if starts_with(&t, "bestmove") {
                        let announced = read_announced_move(&t);
                        let lines = self.best.lines(self.fen.as_str(), self.depth);
                        match summarize(lines, announced) {
                            Some(a) => AnalysisStep::Done(a),
                            None => AnalysisStep::Failed(
                                protocol_error(
                                    "engine returned no analysis info for this position",
                                ),
                            ),
                        }
                    } else {
                        self.goes_on()
                    }
                },
            }
        }
    }

    /// The error of an output that ended during the analysis.
    pub fn on_eof(self) -> (e: EngineError)
        ensures
            is_protocol_error(e, analysis_closed(self@)),
    {
        if self.searching {
            protocol_error("engine closed output before sending bestmove")
        } else {
            closed_while_waiting_error("readyok")
        }
    }
}

/// Reads the move that a `bestmove` line announces.
pub fn read_announced_move(line: &Vec<char>) -> (r: Option<String>)
    ensures
        optional_view(r) == announced_move(line@),
{
    let all = split_words(line);
    if all.len() > 1 {
        assert(rows(all@)[1] == all@[1]@);
        if is_literal(&all[1], "(none)") {
            None
        } else {
            Some(string_from(&all[1]))
        }
    } else {
        None
    }
}

/// A search that is ended by `bestmove` before any record was taken fails
/// for want of analysis, whatever the line says after that word.
pub proof fn lemma_bestmove_without_info_fails(s: AnalysisState, line: Seq<char>)
    requires
        s.searching,
        nothing_recorded(s.best),
        parsed_info(trimmed(line)) is None,
        "bestmove"@.is_prefix_of(trimmed(line)),
    ensures
        analysis_turn(s, line) == AnalysisTurn::Failed(nothing_to_report()),
{
    crate::aggregate::lemma_ranked_lines_ordered(s.best, s.best.len() as int, s.fen, s.depth);
    assert(s.best.take(s.best.len() as int) == s.best);
}

} // verus!
