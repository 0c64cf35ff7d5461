//! The line protocol of an interactive engine session: the commands that a
//! caller writes, one to a line, and the lines that answer them.

use vstd::prelude::*;
use crate::number::{decimal_text, push_decimal, push_signed, signed_text};
use crate::options::{
    field_text,
    multipv_named,
    parse_multipv,
    parse_u32,
    tsv_escape,
    unsigned_named,
};
use crate::text::{
    chars_of,
    is_literal,
    joined,
    push_joined,
    push_text,
    slice_of,
    starts_with,
    string_from,
    texts,
    trim,
    trimmed,
};
use crate::tsv::{find_next, next_of};
use crate::types::{AnalysisRecord, EngineAnalysis, EngineLine, LineRecord};

verus! {

/// What a line of a caller asks for.
pub enum SessionCommand {
    /// Nothing: the line is blank.
    Skip,
    /// The end of the session.
    Quit,
    /// A sign of life.
    Ping,
    /// An analysis of a position for the best line.
    Analyze { depth: u32, fen: String },
    /// An analysis of a position for ranked lines.
    AnalyzeMultipv { depth: u32, multipv: u32, fen: String },
    /// Nothing that can be done: the answer is an error with this text.
    Refuse(String),
}

/// The mathematical value of a `SessionCommand`.
pub enum CommandRecord {
    Skip,
    Quit,
    Ping,
    Analyze { depth: u32, fen: Seq<char> },
    AnalyzeMultipv { depth: u32, multipv: u32, fen: Seq<char> },
    Refuse(Seq<char>),
}

impl View for SessionCommand {
    type V = CommandRecord;

    open spec fn view(&self) -> CommandRecord {
        match self {
            SessionCommand::Skip => CommandRecord::Skip,
            SessionCommand::Quit => CommandRecord::Quit,
            SessionCommand::Ping => CommandRecord::Ping,
            SessionCommand::Analyze { depth, fen } => CommandRecord::Analyze {
                depth: *depth,
                fen: fen@,
            },
            SessionCommand::AnalyzeMultipv { depth, multipv, fen } => CommandRecord::AnalyzeMultipv {
                depth: *depth,
                multipv: *multipv,
                fen: fen@,
            },
            SessionCommand::Refuse(text) => CommandRecord::Refuse(text@),
        }
    }
}

/// The end of `s[..to]` once the line breaks at its end are cut off.
pub open spec fn before_line_breaks(s: Seq<char>, to: int) -> int
    decreases to,
{
    if 0 < to <= s.len() && (s[to - 1] == '\n' || s[to - 1] == '\r') {
        before_line_breaks(s, to - 1)
    } else {
        to
    }
}

/// A line without the line breaks at its end.
pub open spec fn command_text(input: Seq<char>) -> Seq<char> {
    input.subrange(0, before_line_breaks(input, input.len() as int))
}

/// The field of `s` that begins at `from` and ends before the next tab,
/// empty where `from` lies beyond the text.
pub open spec fn field_at(s: Seq<char>, from: int) -> Seq<char> {
    if 0 <= from <= s.len() {
        s.subrange(from, next_of(s, '\t', from))
    } else {
        Seq::empty()
    }
}

/// Where the field after the field at `from` begins: behind the next tab,
/// or beyond the text where there is no tab.
pub open spec fn after_field(s: Seq<char>, from: int) -> int {
    if 0 <= from <= s.len() {
        next_of(s, '\t', from) + 1
    } else {
        from
    }
}

/// All of `s` from `from` on, trimmed; empty where `from` lies beyond the
/// text.
pub open spec fn rest_at(s: Seq<char>, from: int) -> Seq<char> {
    if 0 <= from <= s.len() {
        trimmed(s.subrange(from, s.len() as int))
    } else {
        Seq::empty()
    }
}

/// What an `analyze` line asks for, given its depth field and its
/// position: the position is looked at first, then the depth.
pub open spec fn analyze_asked(depth: Seq<char>, fen: Seq<char>) -> CommandRecord {
    if fen.len() == 0 {
        CommandRecord::Refuse("fen is required"@)
    } else {
        match unsigned_named("depth"@, depth) {
            Ok(d) => CommandRecord::Analyze { depth: d, fen },
            Err(text) => CommandRecord::Refuse(field_text(Some(text))),
        }
    }
}

/// What an `analyze-multipv` line asks for, given its depth field, its
/// width field and its position: the position is looked at first, then
/// the depth, then the width.
pub open spec fn analyze_multipv_asked(depth: Seq<char>, multipv: Seq<char>, fen: Seq<char>)
    -> CommandRecord {
    if fen.len() == 0 {
        CommandRecord::Refuse("fen is required"@)
    } else {
        match unsigned_named("depth"@, depth) {
            Ok(d) => match multipv_named(multipv) {
                Ok(m) => CommandRecord::AnalyzeMultipv { depth: d, multipv: m, fen },
                Err(text) => CommandRecord::Refuse(field_text(Some(text))),
            },
            Err(text) => CommandRecord::Refuse(field_text(Some(text))),
        }
    }
}

/// What a line asks for. `quit` and `ping` stand alone. `analyze` is
/// followed by a tab, the depth, a tab and the position;
/// `analyze-multipv` by a tab, the depth, a tab, the width, a tab and the
/// position. The position is the rest of the line, tabs and all.
pub open spec fn command_of(input: Seq<char>) -> CommandRecord {
    let line = command_text(input);
    if trimmed(line).len() == 0 {
        CommandRecord::Skip
    } else if line == "quit"@ {
        CommandRecord::Quit
    } else if line == "ping"@ {
        CommandRecord::Ping
    } else if "analyze-multipv\t"@.is_prefix_of(line) {
        let depth_at = after_field(line, 0);
        let multipv_at = after_field(line, depth_at);
        let fen_at = after_field(line, multipv_at);
        analyze_multipv_asked(
            field_at(line, depth_at),
            field_at(line, multipv_at),
            rest_at(line, fen_at),
        )
    } else if "analyze\t"@.is_prefix_of(line) {
        let depth_at = after_field(line, 0);
        let fen_at = after_field(line, depth_at);
        analyze_asked(field_at(line, depth_at), rest_at(line, fen_at))
    } else {
        CommandRecord::Refuse("unknown command"@)
    }
}

/// The field at `from` and the place where the next field begins, `None`
/// for a place beyond the text.
fn read_field(line: &Vec<char>, from: Option<usize>) -> (r: (Vec<char>, Option<usize>))
    requires
        from matches Some(at) ==> at <= line.len(),
    ensures
        match from {
            Some(at) => r.0@ == field_at(line@, at as int) && match r.1 {
                Some(next) => next <= line.len() && next == after_field(line@, at as int),
                None => after_field(line@, at as int) > line.len(),
            },
            None => r.0@ == Seq::<char>::empty() && r.1 is None,
        },
{
    match from {
        Some(at) => {
            let end = find_next(line, '\t', at);
            let next = if end < line.len() {
                Some(end + 1)
            } else {
                None
            };
            (slice_of(line, at, end), next)
        },
        None => (Vec::new(), None),
    }
}

/// All of the line from `from` on, trimmed; nothing for a place beyond the
/// text.
fn read_rest(line: &Vec<char>, from: Option<usize>) -> (r: Vec<char>)
    requires
        from matches Some(at) ==> at <= line.len(),
    ensures
        match from {
            Some(at) => r@ == rest_at(line@, at as int),
            None => r@ == Seq::<char>::empty(),
        },
{
    match from {
        Some(at) => {
            let rest = slice_of(line, at, line.len());
            trim(&rest)
        },
        None => Vec::new(),
    }
}

fn refuse_escaped(text: String) -> (c: SessionCommand)
    ensures
        c@ == CommandRecord::Refuse(field_text(Some(text@))),
{
    SessionCommand::Refuse(tsv_escape(Some(text.as_str())))
}

/// Reads one line of a caller.
pub fn read_session_command(input: &str) -> (c: SessionCommand)
    ensures
        c@ == command_of(input@),
{
    let chars = chars_of(input);
    let mut end: usize = chars.len();
    while end > 0 && (chars[end - 1] == '\n' || chars[end - 1] == '\r')
        invariant
            end <= chars.len(),
            before_line_breaks(chars@, end as int) == before_line_breaks(
                chars@,
                chars.len() as int,
            ),
        decreases end,
    {
        end -= 1;
    }
    let line = slice_of(&chars, 0, end);
    let t = trim(&line);
    if t.len() == 0 {
        return SessionCommand::Skip;
    }
    if is_literal(&line, "quit") {
        return SessionCommand::Quit;
    }
    if is_literal(&line, "ping") {
        return SessionCommand::Ping;
    }
    if starts_with(&line, "analyze-multipv\t") {
        let (_, depth_at) = read_field(&line, Some(0));
        let (depth_text, multipv_at) = read_field(&line, depth_at);
        let (multipv_text, fen_at) = read_field(&line, multipv_at);
        let fen = read_rest(&line, fen_at);
        if fen.len() == 0 {
            return SessionCommand::Refuse("fen is required".to_owned());
        }
        let depth = match parse_u32("depth", string_from(&depth_text).as_str()) {
            Ok(d) => d,
            Err(text) => {
                return refuse_escaped(text);
            },
        };
        let multipv = match parse_multipv(string_from(&multipv_text).as_str()) {
            Ok(m) => m,
            Err(text) => {
                return refuse_escaped(text);
            },
        };
        return SessionCommand::AnalyzeMultipv { depth, multipv, fen: string_from(&fen) };
    }
    if starts_with(&line, "analyze\t") {
        let (_, depth_at) = read_field(&line, Some(0));
        let (depth_text, fen_at) = read_field(&line, depth_at);
        let fen = read_rest(&line, fen_at);
        if fen.len() == 0 {
            return SessionCommand::Refuse("fen is required".to_owned());
        }
        let depth = match parse_u32("depth", string_from(&depth_text).as_str()) {
            Ok(d) => d,
            Err(text) => {
                return refuse_escaped(text);
            },
        };
        return SessionCommand::Analyze { depth, fen: string_from(&fen) };
    }
    SessionCommand::Refuse("unknown command".to_owned())
}

/// A score as a field: its decimal form, empty for none.
pub open spec fn score_text(score: Option<i32>) -> Seq<char> {
    match score {
        Some(n) => signed_text(n as int),
        None => Seq::empty(),
    }
}

/// A line of moves as a field: the moves with a space between each two.
pub open spec fn moves_text(moves: Seq<Seq<char>>) -> Seq<char> {
    field_text(Some(joined(moves, " "@)))
}

/// The fields that sum an analysis up: depth, the two scores, the move to
/// play and the primary line, with a tab between each two.
pub open spec fn summary_fields(a: AnalysisRecord) -> Seq<char> {
    decimal_text(a.depth as nat) + "\t"@ + score_text(a.score_cp) + "\t"@ + score_text(
        a.score_mate,
    ) + "\t"@ + field_text(a.bestmove) + "\t"@ + moves_text(a.pv)
}

/// The fields of one ranked line, after the word `line`: rank, depth, the
/// two scores, and the moves in coordinate and in standard notation.
pub open spec fn line_fields(l: LineRecord) -> Seq<char> {
    "line\t"@ + decimal_text(l.multipv_rank as nat) + "\t"@ + decimal_text(l.depth as nat)
        + "\t"@ + score_text(l.score_cp) + "\t"@ + score_text(l.score_mate) + "\t"@ + moves_text(
        l.pv,
    ) + "\t"@ + moves_text(l.san_pv)
}

fn push_score(s: &mut String, score: Option<i32>)
    ensures
        final(s)@ == old(s)@ + score_text(score),
{
    match score {
        Some(n) => {
            push_signed(s, n);
        },
        None => {
            assert(s@ + Seq::<char>::empty() == s@);
        },
    }
}

fn push_moves(s: &mut String, moves: &Vec<String>)
    ensures
        final(s)@ == old(s)@ + moves_text(texts(moves@)),
{
    let mut all = String::new();
    push_joined(&mut all, moves, " ");
    assert(Seq::<char>::empty() + joined(texts(moves@), " "@) == joined(texts(moves@), " "@));
    let shown = tsv_escape(Some(all.as_str()));
    push_text(s, shown.as_str());
}

/// Writes the fields that sum an analysis up, after `label` where one is
/// given: `label`, a tab, and the fields.
pub fn summary_line(label: &str, analysis: &EngineAnalysis) -> (s: String)
    ensures
        s@ == if label@.len() > 0 {
            label@ + "\t"@ + summary_fields(analysis@)
        } else {
            summary_fields(analysis@)
        },
{
    let mut s = String::new();
    if !label.is_empty() {
        push_text(&mut s, label);
        push_text(&mut s, "\t");
    }
    let ghost head = s@;
    push_decimal(&mut s, analysis.depth as u64);
    push_text(&mut s, "\t");
    push_score(&mut s, analysis.score_cp);
    push_text(&mut s, "\t");
    push_score(&mut s, analysis.score_mate);
    push_text(&mut s, "\t");
    let bestmove = match &analysis.bestmove {
        Some(m) => tsv_escape(Some(m.as_str())),
        None => tsv_escape(None),
    };
    push_text(&mut s, bestmove.as_str());
    push_text(&mut s, "\t");
    push_moves(&mut s, &analysis.pv);
    proof {
        let a = analysis@;
        let f1 = decimal_text(a.depth as nat);
        let f2 = score_text(a.score_cp);
        let f3 = score_text(a.score_mate);
        let f4 = field_text(a.bestmove);
        let f5 = moves_text(a.pv);
        let tab = "\t"@;
        assert(s@ == head + f1 + tab + f2 + tab + f3 + tab + f4 + tab + f5);
        assert(head + f1 + tab + f2 + tab + f3 + tab + f4 + tab + f5 == head + (f1 + tab + f2 + tab
            + f3 + tab + f4 + tab + f5));
        if label@.len() == 0 {
            assert(head + summary_fields(a) == summary_fields(a));
        }
    }
    s
}

/// Writes one ranked line.
pub fn ranked_line(line: &EngineLine) -> (s: String)
    ensures
        s@ == line_fields(line@),
{
    let mut s = String::new();
    push_text(&mut s, "line\t");
    push_decimal(&mut s, line.multipv_rank as u64);
    push_text(&mut s, "\t");
    push_decimal(&mut s, line.depth as u64);
    push_text(&mut s, "\t");
    push_score(&mut s, line.score_cp);
    push_text(&mut s, "\t");
    push_score(&mut s, line.score_mate);
    push_text(&mut s, "\t");
    push_moves(&mut s, &line.pv);
    push_text(&mut s, "\t");
    push_moves(&mut s, &line.san_pv);
    assert(Seq::<char>::empty() + "line\t"@ == "line\t"@);
    s
}

} // verus!
