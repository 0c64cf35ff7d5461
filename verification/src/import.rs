//! The bookkeeping of an import of games: where one game's text ends and
//! the next begins, what is kept of a game's tags and moves, and the count
//! of what became of each game.

use vstd::prelude::*;
use crate::text::{
    chars_of,
    optional_view,
    push_text,
    starts_with,
    string_from,
    texts,
    trim,
    trimmed,
};
use crate::types::ImportSummary;

verus! {

/// What is kept of one game: seven of its tags and its moves.
#[derive(Debug, Default, Clone, PartialEq, Eq)]
pub struct GameHeaders {
    pub event: Option<String>,
    pub site: Option<String>,
    pub date: Option<String>,
    pub white: Option<String>,
    pub black: Option<String>,
    pub result: Option<String>,
    pub eco: Option<String>,
    pub movetext: String,
}

/// The mathematical value of a `GameHeaders`.
pub struct HeadersRecord {
    pub event: Option<Seq<char>>,
    pub site: Option<Seq<char>>,
    pub date: Option<Seq<char>>,
    pub white: Option<Seq<char>>,
    pub black: Option<Seq<char>>,
    pub result: Option<Seq<char>>,
    pub eco: Option<Seq<char>>,
    pub movetext: Seq<char>,
}

impl View for GameHeaders {
    type V = HeadersRecord;

    open spec fn view(&self) -> HeadersRecord {
        HeadersRecord {
            event: optional_view(self.event),
            site: optional_view(self.site),
            date: optional_view(self.date),
            white: optional_view(self.white),
            black: optional_view(self.black),
            result: optional_view(self.result),
            eco: optional_view(self.eco),
            movetext: self.movetext@,
        }
    }
}

/// Whether the bytes `name` spell the tag `tag`.
pub open spec fn spells(name: Seq<u8>, tag: Seq<char>) -> bool {
    name.len() == tag.len() && forall|i: int|
        0 <= i < name.len() ==> #[trigger] name[i] as u32 == tag[i] as u32
}

/// The headers `h` after the tag `name` with the text `value`: one of the
/// seven tags takes the text, any other tag changes nothing.
pub open spec fn with_tag(h: HeadersRecord, name: Seq<u8>, value: Seq<char>) -> HeadersRecord {
    if spells(name, "Event"@) {
        HeadersRecord { event: Some(value), ..h }
    } else if spells(name, "Site"@) {
        HeadersRecord { site: Some(value), ..h }
    } else if spells(name, "Date"@) {
        HeadersRecord { date: Some(value), ..h }
    } else if spells(name, "White"@) {
        HeadersRecord { white: Some(value), ..h }
    } else if spells(name, "Black"@) {
        HeadersRecord { black: Some(value), ..h }
    } else if spells(name, "Result"@) {
        HeadersRecord { result: Some(value), ..h }
    } else if spells(name, "ECO"@) {
        HeadersRecord { eco: Some(value), ..h }
    } else {
        h
    }
}

/// The moves `movetext` and one more move, with a space between moves.
pub open spec fn with_san(movetext: Seq<char>, san: Seq<char>) -> Seq<char> {
    if movetext.len() > 0 {
        movetext + " "@ + san
    } else {
        san
    }
}

fn names_tag(name: &[u8], tag: &str) -> (r: bool)
    ensures
        r == spells(name@, tag@),
{
    let t = chars_of(tag);
    if name.len() != t.len() {
        return false;
    }
    let mut i: usize = 0;
    while i < name.len()
        invariant
            i <= name.len(),
            name.len() == t.len(),
            t@ == tag@,
            forall|k: int| 0 <= k < i ==> #[trigger] name@[k] as u32 == tag@[k] as u32,
        decreases name.len() - i,
    {
        if name[i] as u32 != t[i] as u32 {
            return false;
        }
        i += 1;
    }
    true
}

impl GameHeaders {
    /// Headers with no tag and no move.
    pub fn new() -> (h: GameHeaders)
        ensures
            h@ == (HeadersRecord {
                event: None,
                site: None,
                date: None,
                white: None,
                black: None,
                result: None,
                eco: None,
                movetext: Seq::empty(),
            }),
    {
        GameHeaders {
            event: None,
            site: None,
            date: None,
            white: None,
            black: None,
            result: None,
            eco: None,
            movetext: String::new(),
        }
    }

    /// Takes one tag of the game.
    pub fn set_tag(&mut self, name: &[u8], value: String)
        ensures
            final(self)@ == with_tag(old(self)@, name@, value@),
    {
        if names_tag(name, "Event") {
            self.event = Some(value);
        } else if names_tag(name, "Site") {
            self.site = Some(value);
        } else if names_tag(name, "Date") {
            self.date = Some(value);
        } else if names_tag(name, "White") {
            self.white = Some(value);
        } else if names_tag(name, "Black") {
            self.black = Some(value);
        } else if names_tag(name, "Result") {
            self.result = Some(value);
        } else if names_tag(name, "ECO") {
            self.eco = Some(value);
        }
    }

    /// Takes one move of the game.
    pub fn push_san(&mut self, san: &str)
        ensures
            final(self)@ == (HeadersRecord {
                movetext: with_san(old(self)@.movetext, san@),
                ..old(self)@
            }),
    {
        if !self.movetext.as_str().is_empty() {
            push_text(&mut self.movetext, " ");
        } else {
            assert(self.movetext@ + san@ == san@);
        }
        push_text(&mut self.movetext, san);
    }

    /// The moves as they are stored: trimmed, and none at all where that
    /// leaves nothing.
    pub fn stored_movetext(&self) -> (r: Option<String>)
        ensures
            optional_view(r) == if trimmed(self@.movetext).len() > 0 {
                Some(trimmed(self@.movetext))
            } else {
                None
            },
    {
        let chars = chars_of(self.movetext.as_str());
        let t = trim(&chars);
        if t.len() == 0 {
            None
        } else {
            Some(string_from(&t))
        }
    }
}

/// What became of one game of an import.
#[derive(Debug, Clone, Copy, PartialEq, Eq)]
pub enum Ingest {
    /// The game was stored.
    Inserted,
    /// The game was there already.
    Skipped,
    /// The game's text could not be read.
    Unreadable,
}

/// What became of a game whose text was read, given the number of rows
/// that storing it added: stored for one row, there already otherwise.
pub fn ingest_of_rows(inserted_rows: usize) -> (r: Ingest)
    ensures
        r == if inserted_rows == 1 {
            Ingest::Inserted
        } else {
            Ingest::Skipped
        },
{
    if inserted_rows == 1 {
        Ingest::Inserted
    } else {
        Ingest::Skipped
    }
}

/// The count after one more game.
pub open spec fn counted(s: ImportSummary, outcome: Ingest) -> ImportSummary {
    match outcome {
        Ingest::Inserted => ImportSummary {
            total: (s.total + 1) as usize,
            inserted: (s.inserted + 1) as usize,
            ..s
        },
        Ingest::Skipped => ImportSummary {
            total: (s.total + 1) as usize,
            skipped: (s.skipped + 1) as usize,
            ..s
        },
        Ingest::Unreadable => ImportSummary {
            total: (s.total + 1) as usize,
            errors: (s.errors + 1) as usize,
            ..s
        },
    }
}

/// Whether the parts of a count add up to its total.
pub open spec fn adds_up(s: ImportSummary) -> bool {
    s.inserted + s.skipped + s.errors == s.total
}

/// The part of a count that an outcome adds to.
pub open spec fn part_of(s: ImportSummary, outcome: Ingest) -> usize {
    match outcome {
        Ingest::Inserted => s.inserted,
        Ingest::Skipped => s.skipped,
        Ingest::Unreadable => s.errors,
    }
}

/// Counts one more game. The total and the part that the outcome adds to
/// must have room for one more.
pub fn count_game(summary: &mut ImportSummary, outcome: Ingest)
    requires
        old(summary).total < usize::MAX,
        part_of(*old(summary), outcome) < usize::MAX,
    ensures
        *final(summary) == counted(*old(summary), outcome),
        adds_up(*old(summary)) ==> adds_up(*final(summary)),
{
    summary.total += 1;
    match outcome {
        Ingest::Inserted => {
            summary.inserted += 1;
        },
        Ingest::Skipped => {
            summary.skipped += 1;
        },
        Ingest::Unreadable => {
            summary.errors += 1;
        },
    }
}

/// After how many games progress is reported.
pub const PROGRESS_EMIT_GAMES_INTERVAL: usize = 1_000;

/// After how many milliseconds progress is reported.
pub const PROGRESS_EMIT_TIME_INTERVAL_MS: u64 = 300;

/// Whether progress is due: never before the first game; then at every
/// full interval of games, and whenever the time interval has passed since
/// the last report.
pub fn progress_is_due(total: usize, elapsed_ms: u64) -> (r: bool)
    ensures
        r == (total != 0 && (total % PROGRESS_EMIT_GAMES_INTERVAL == 0 || elapsed_ms
            >= PROGRESS_EMIT_TIME_INTERVAL_MS)),
{
    total != 0 && (total % PROGRESS_EMIT_GAMES_INTERVAL == 0 || elapsed_ms
        >= PROGRESS_EMIT_TIME_INTERVAL_MS)
}

/// The text of the game that is being read, line by line.
pub struct GameChunker {
    chunk: String,
}

impl View for GameChunker {
    type V = Seq<char>;

    closed spec fn view(&self) -> Seq<char> {
        self.chunk@
    }
}

/// Whether a line opens a game.
pub open spec fn opens_game(line: Seq<char>) -> bool {
    "[Event "@.is_prefix_of(line)
}

/// Whether a text holds nothing but whitespace.
pub open spec fn is_blank(text: Seq<char>) -> bool {
    trimmed(text).len() == 0
}

impl GameChunker {
    /// A chunker that has read nothing.
    pub fn new() -> (c: GameChunker)
        ensures
            c@ == Seq::<char>::empty(),
    {
        GameChunker { chunk: String::new() }
    }

    /// Takes one line, with its line ending. A line that opens a game ends
    /// the game before it, whose text is handed out unless it is blank.
    pub fn push_line(&mut self, line: &str) -> (done: Option<String>)
        ensures
            opens_game(line@) && !is_blank(old(self)@) ==> optional_view(done) == Some(old(self)@)
                && final(self)@ == line@,
            !(opens_game(line@) && !is_blank(old(self)@)) ==> done is None && final(self)@ == old(
                self,
            )@ + line@,
    {
        let chars = chars_of(line);
        if starts_with(&chars, "[Event ") && !self.blank() {
            let mut next = String::new();
            push_text(&mut next, line);
            assert(Seq::<char>::empty() + line@ == line@);
            std::mem::swap(&mut self.chunk, &mut next);
            Some(next)
        } else {
            push_text(&mut self.chunk, line);
            None
        }
    }

    /// The text of the last game, once the input has ended, unless it is
    /// blank.
    pub fn finish(self) -> (done: Option<String>)
        ensures
            optional_view(done) == if is_blank(self@) {
                None
            } else {
                Some(self@)
            },
    {
        if self.blank() {
            None
        } else {
            Some(self.chunk)
        }
    }

    fn blank(&self) -> (r: bool)
        ensures
            r == is_blank(self@),
    {
        let chars = chars_of(self.chunk.as_str());
        let t = trim(&chars);
        t.len() == 0
    }
}

/// The texts of the games that the lines `lines[at..]` hold, after the
/// text `chunk` of the game that is being read.
pub open spec fn games_from(lines: Seq<Seq<char>>, at: int, chunk: Seq<char>) -> Seq<Seq<char>>
    decreases lines.len() - at,
{
    if at < 0 || at >= lines.len() {
        if is_blank(chunk) {
            Seq::empty()
        } else {
            seq![chunk]
        }
    } else if opens_game(lines[at]) && !is_blank(chunk) {
        seq![chunk] + games_from(lines, at + 1, lines[at])
    } else {
        games_from(lines, at + 1, chunk + lines[at])
    }
}

/// Splits a text, given as its lines with their line endings, into the
/// texts of its games.
pub fn split_games(lines: &Vec<String>) -> (games: Vec<String>)
    ensures
        texts(games@) == games_from(texts(lines@), 0, Seq::empty()),
{
    let mut games: Vec<String> = Vec::new();
    let mut chunker = GameChunker::new();
    let mut at: usize = 0;
    let ghost all = texts(lines@);
    assert(texts(games@) == Seq::<Seq<char>>::empty());
    while at < lines.len()
        invariant
            at <= lines.len(),
            all == texts(lines@),
            texts(games@) + games_from(all, at as int, chunker@) == games_from(
                all,
                0,
                Seq::empty(),
            ),
        decreases lines.len() - at,
    {
        assert(all[at as int] == lines@[at as int]@);
        let ghost before = texts(games@);
        let ghost chunk = chunker@;
        match chunker.push_line(lines[at].as_str()) {
            Some(game) => {
                proof {
                    assert(texts(games@.push(game)) == before.push(game@));
                    assert(before.push(chunk) + games_from(all, at + 1, all[at as int]) == before
                        + (seq![chunk] + games_from(all, at + 1, all[at as int])));
                }
                games.push(game);
            },
            None => {},
        }
        at += 1;
    }
    let ghost before = texts(games@);
    match chunker.finish() {
        Some(game) => {
            proof {
                assert(texts(games@.push(game)) == before.push(game@));
                assert(before.push(game@) == before + seq![game@]);
            }
            games.push(game);
        },
        None => {
            assert(before + Seq::<Seq<char>>::empty() == before);
        },
    }
    games
}

/// The texts, one after the other.
pub open spec fn strung(parts: Seq<Seq<char>>) -> Seq<char>
    decreases parts.len(),
{
    if parts.len() == 0 {
        Seq::empty()
    } else {
        parts[0] + strung(parts.drop_first())
    }
}

/// What is left of the lines from `at` on, one after the other.
pub open spec fn strung_from(lines: Seq<Seq<char>>, at: int) -> Seq<char>
    decreases lines.len() - at,
{
    if at < 0 || at >= lines.len() {
        Seq::empty()
    } else {
        lines[at] + strung_from(lines, at + 1)
    }
}

/// Splitting loses no text of a game: the games, one after the other, are
/// the chunk that was being read and the lines that followed, unless all of
/// it is blank and there is no game at all. No game is blank.
pub proof fn lemma_games_keep_the_text(lines: Seq<Seq<char>>, at: int, chunk: Seq<char>)
    requires
        0 <= at <= lines.len(),
    ensures
        games_from(lines, at, chunk).len() > 0 ==> strung(games_from(lines, at, chunk)) == chunk
            + strung_from(lines, at),
        games_from(lines, at, chunk).len() == 0 ==> is_blank(chunk + strung_from(lines, at)),
        forall|i: int|
            0 <= i < games_from(lines, at, chunk).len() ==> !is_blank(
                #[trigger] games_from(lines, at, chunk)[i],
            ),
    decreases lines.len() - at,
{
    let games = games_from(lines, at, chunk);
    if at >= lines.len() {
        assert(chunk + Seq::<char>::empty() == chunk);
        if !is_blank(chunk) {
            assert(games.drop_first() == Seq::<Seq<char>>::empty());
            assert(strung(games) == chunk + strung(games.drop_first()));
        }
    } else if opens_game(lines[at]) && !is_blank(chunk) {
        let rest = games_from(lines, at + 1, lines[at]);
        lemma_games_keep_the_text(lines, at + 1, lines[at]);
        lemma_game_that_opens_is_not_blank(lines[at], strung_from(lines, at + 1));
        assert(games.drop_first() == rest);
        assert(games[0] == chunk);
        assert forall|i: int| 0 <= i < games.len() implies !is_blank(#[trigger] games[i]) by {
            if i > 0 {
                assert(games[i] == rest[i - 1]);
            }
        }
    } else {
        lemma_games_keep_the_text(lines, at + 1, chunk + lines[at]);
        assert(chunk + lines[at] + strung_from(lines, at + 1) == chunk + (lines[at] + strung_from(
            lines,
            at + 1,
        )));
    }
}

/// A text that begins with a line that opens a game is not blank.
proof fn lemma_game_that_opens_is_not_blank(line: Seq<char>, rest: Seq<char>)
    requires
        opens_game(line),
    ensures
        !is_blank(line + rest),
{
    let text = line + rest;
    reveal_strlit("[Event ");
    let opening = "[Event "@;
    assert(opening.len() == 7 && opening[0] == '[');
    assert(line.subrange(0, 7) == opening);
    assert(line.subrange(0, 7)[0] == line[0]);
    assert(line[0] == '[');
    assert(text[0] == '[');
    assert(!crate::text::is_space(text[0]));
    assert(crate::text::first_non_space(text, 0) == 0);
    crate::text::lemma_last_non_space_end_bounds(text, text.len() as int);
    let end = crate::text::last_non_space_end(text, text.len() as int);
    if end <= 0 {
        assert(crate::text::is_space(text[0]));
    }
    assert(trimmed(text) == text.subrange(0, end));
}

} // verus!
