//! Replaying the moves of a stored game, one position after the other.

use vstd::prelude::*;
use crate::rules::{initial_position, play_san, san_played, START_FEN};
use crate::text::{chars_of, rows, split_words, string_from, texts, words};
use crate::types::{ReplayError, ReplayTimeline, TimelineRecord};

verus! {

/// Why the moves of a game could not be replayed.
pub enum ReplayFault {
    /// The game has no moves stored, or only whitespace.
    NoMoves,
    /// The move of this ply, counted from 1, cannot be played.
    BadMove { ply: int, san: Seq<char> },
}

/// The timeline before the first move.
pub open spec fn timeline_opened() -> TimelineRecord {
    TimelineRecord { fens: seq![START_FEN@], sans: Seq::empty(), ucis: Seq::empty() }
}

/// The timeline `so_far`, which has come to the position `fen`, continued
/// by the moves `sans[at..]`.
pub open spec fn replay_from(
    fen: Seq<char>,
    sans: Seq<Seq<char>>,
    at: int,
    so_far: TimelineRecord,
) -> Result<TimelineRecord, ReplayFault>
    decreases sans.len() - at,
{
    if at < 0 || at >= sans.len() {
        Ok(so_far)
    } else {
        match san_played(fen, sans[at]) {
            Some((uci, next)) => replay_from(
                next,
                sans,
                at + 1,
                TimelineRecord {
                    fens: so_far.fens.push(next),
                    sans: so_far.sans.push(sans[at]),
                    ucis: so_far.ucis.push(uci),
                },
            ),
            None => Err(ReplayFault::BadMove { ply: at + 1, san: sans[at] }),
        }
    }
}

/// The timeline of a game's stored moves: its words, played one after the
/// other from the starting position.
pub open spec fn replayed(movetext: Option<Seq<char>>) -> Result<TimelineRecord, ReplayFault> {
    match movetext {
        Some(text) => if words(text).len() == 0 {
            Err(ReplayFault::NoMoves)
        } else {
            replay_from(START_FEN@, words(text), 0, timeline_opened())
        },
        None => Err(ReplayFault::NoMoves),
    }
}

/// Whether a result is what a replay came to for the game `game_id`.
pub open spec fn replay_result_is(
    r: Result<ReplayTimeline, ReplayError>,
    game_id: i64,
    outcome: Result<TimelineRecord, ReplayFault>,
) -> bool {
    match r {
        Ok(timeline) => outcome == Ok::<TimelineRecord, ReplayFault>(timeline@),
        Err(ReplayError::MissingMovetext(id)) => id == game_id && outcome == Err::<
            TimelineRecord,
            ReplayFault,
        >(ReplayFault::NoMoves),
        Err(ReplayError::InvalidSan { ply, san }) => outcome == Err::<TimelineRecord, ReplayFault>(
            ReplayFault::BadMove { ply: ply as int, san: san@ },
        ),
        Err(_) => false,
    }
}

/// Replays the moves `movetext` that are stored for the game `game_id`.
/// Without moves the answer is `MissingMovetext`; a move that cannot be
/// played gives `InvalidSan` with its ply and its text.
pub fn replay_game(game_id: i64, movetext: Option<&str>) -> (r: Result<
    ReplayTimeline,
    ReplayError,
>)
    ensures
        replay_result_is(
            r,
            game_id,
            replayed(
                match movetext {
                    Some(text) => Some(text@),
                    None => None,
                },
            ),
        ),
{
    let text = match movetext {
        Some(text) => text,
        None => {
            return Err(ReplayError::MissingMovetext(game_id));
        },
    };
    let chars = chars_of(text);
    let all = split_words(&chars);
    if all.len() == 0 {
        return Err(ReplayError::MissingMovetext(game_id));
    }
    let first = initial_position();
    let mut current = first.clone();
    let mut fens: Vec<String> = Vec::new();
    let mut sans: Vec<String> = Vec::new();
    let mut ucis: Vec<String> = Vec::new();
    assert(texts(fens@.push(first)) == seq![START_FEN@]);
    fens.push(first);
    assert(texts(sans@) == Seq::<Seq<char>>::empty());
    assert(texts(ucis@) == Seq::<Seq<char>>::empty());
    let ghost tokens = words(text@);
    let mut at: usize = 0;
    while at < all.len()
        invariant
            at <= all.len(),
            tokens == rows(all@),
            tokens == words(text@),
            movetext == Some(text),
            tokens.len() > 0,
            replay_from(
                current@,
                tokens,
                at as int,
                (TimelineRecord {
                    fens: texts(fens@),
                    sans: texts(sans@),
                    ucis: texts(ucis@),
                }),
            ) == replay_from(START_FEN@, tokens, 0, timeline_opened()),
        decreases all.len() - at,
    {
        let san = string_from(&all[at]);
        assert(tokens[at as int] == san@);
        match play_san(current.as_str(), san.as_str()) {
            Some((uci, next)) => {
                proof {
                    assert(texts(fens@.push(next)) == texts(fens@).push(next@));
                    assert(texts(sans@.push(san)) == texts(sans@).push(san@));
                    assert(texts(ucis@.push(uci)) == texts(ucis@).push(uci@));
                }
                current = next.clone();
                fens.push(next);
                sans.push(san);
                ucis.push(uci);
            },
            None => {
                return Err(ReplayError::InvalidSan { ply: at + 1, san });
            },
        }
        at += 1;
    }
    Ok(ReplayTimeline { fens, sans, ucis })
}

/// Replays the moves `movetext` that are stored for the game `game_id` and
/// keeps the positions: the one before the first move and the one after
/// each move.
pub fn replay_game_fens(game_id: i64, movetext: Option<&str>) -> (r: Result<
    Vec<String>,
    ReplayError,
>)
    ensures
        ({
            let outcome = replayed(
                match movetext {
                    Some(text) => Some(text@),
                    None => None,
                },
            );
            match r {
                Ok(fens) => outcome matches Ok(timeline) && timeline.fens == texts(fens@),
                Err(e) => outcome is Err && replay_result_is(Err(e), game_id, outcome),
            }
        }),
{
    match replay_game(game_id, movetext) {
        Ok(timeline) => Ok(timeline.fens),
        Err(e) => Err(e),
    }
}

} // verus!
