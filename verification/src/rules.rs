//! The rules of chess, as far as the library needs them: playing a move that
//! is given in coordinate or standard notation on a position that is given
//! as FEN text. The rules themselves are `shakmaty`'s.

use vstd::prelude::*;
use pgn_reader::SanPlus;
use shakmaty::fen::Fen;
use shakmaty::san::San;
use shakmaty::uci::UciMove;
use shakmaty::{CastlingMode, Chess, EnPassantMode, Position};
use crate::text::texts;
use crate::types::{AnalysisError, AppliedMove, AppliedRecord};

verus! {

/// Whether `fen` is the text of a position that standard chess accepts.
pub uninterp spec fn position_accepted(fen: Seq<char>) -> bool;

/// Whether `uci` is well-formed coordinate notation.
pub uninterp spec fn uci_well_formed(uci: Seq<char>) -> bool;

/// The move that `uci` names on the position `fen`, played: `None` where
/// the position is not accepted, the notation is malformed or the move is
/// not legal.
pub uninterp spec fn uci_played(fen: Seq<char>, uci: Seq<char>) -> Option<AppliedRecord>;

/// The move that `san` names on the position `fen`, played: its coordinate
/// notation and the position that it leads to. `None` where the position is
/// not accepted, the notation is malformed or names no legal move.
pub uninterp spec fn san_played(fen: Seq<char>, san: Seq<char>) -> Option<
    (Seq<char>, Seq<char>),
>;

/// The legal moves of the position `fen` in coordinate notation, `None`
/// where the position is not accepted.
pub uninterp spec fn legal_moves_of(fen: Seq<char>) -> Option<Seq<Seq<char>>>;

/// `Fen::from_ascii` and `Fen::into_position` of `shakmaty`, for `Chess` in
/// standard castling mode: whether both accept the text. The answer is a
/// function of the text alone.
#[verifier::external_body]
fn accepts_position(fen: &str) -> (ok: bool)
    ensures
        ok == position_accepted(fen@),
{
    match Fen::from_ascii(fen.as_bytes()) {
        Ok(setup) => setup.into_position::<Chess>(CastlingMode::Standard).is_ok(),
        Err(_) => false,
    }
}

/// `UciMove::from_ascii` of `shakmaty`: whether it accepts the text. The
/// answer is a function of the text alone.
#[verifier::external_body]
fn reads_uci(uci: &str) -> (ok: bool)
    ensures
        ok == uci_well_formed(uci@),
{
    UciMove::from_ascii(uci.as_bytes()).is_ok()
}

/// `UciMove::to_move`, `San::from_move`, `UciMove::from_move`,
/// `Position::play_unchecked` and `Fen::from_position` of `shakmaty`, on the
/// position that `fen` sets up and the move that `uci` spells: the move's
/// standard and coordinate notation and the text of the position after it,
/// `None` where any step refuses. The result is a function of the two texts
/// alone, and there is one only where `accepts_position` accepts the
/// position.
#[verifier::external_body]
fn play_uci(fen: &str, uci: &str) -> (r: Option<AppliedMove>)
    ensures
        match r {
            Some(m) => uci_played(fen@, uci@) == Some(m@),
            None => uci_played(fen@, uci@) is None,
        },
        r is Some ==> position_accepted(fen@),
{
    let setup = Fen::from_ascii(fen.as_bytes()).ok()?;
    let mut pos: Chess = setup.into_position(CastlingMode::Standard).ok()?;
    let mv = UciMove::from_ascii(uci.as_bytes()).ok()?.to_move(&pos).ok()?;
    let san = San::from_move(&pos, mv).to_string();
    let uci = UciMove::from_move(mv, pos.castles().mode()).to_string();
    pos.play_unchecked(mv);
    let fen = Fen::from_position(&pos, EnPassantMode::Legal).to_string();
    Some(AppliedMove { san, uci, fen })
}

/// `SanPlus::from_ascii` of `pgn_reader` and `San::to_move`,
/// `UciMove::from_move`, `Position::play_unchecked` and `Fen::from_position`
/// of `shakmaty`, on the position that `fen` sets up and the move that `san`
/// spells: the move's coordinate notation and the text of the position after
/// it, `None` where any step refuses. The result is a function of the two
/// texts alone, and there is one only where `accepts_position` accepts the
/// position.
#[verifier::external_body]
pub(crate) fn play_san(fen: &str, san: &str) -> (r: Option<(String, String)>)
    ensures
        match r {
            Some(m) => san_played(fen@, san@) == Some((m.0@, m.1@)),
            None => san_played(fen@, san@) is None,
        },
        r is Some ==> position_accepted(fen@),
{
    let setup = Fen::from_ascii(fen.as_bytes()).ok()?;
    let mut pos: Chess = setup.into_position(CastlingMode::Standard).ok()?;
    let mv = SanPlus::from_ascii(san.as_bytes()).ok()?.san.to_move(&pos).ok()?;
    let uci = UciMove::from_move(mv, pos.castles().mode()).to_string();
    pos.play_unchecked(mv);
    Some((uci, Fen::from_position(&pos, EnPassantMode::Legal).to_string()))
}

/// `Position::legal_moves` and `UciMove::from_move` of `shakmaty`, on the
/// position that `fen` sets up: every legal move in coordinate notation, in
/// the order in which the move generator lists them; `None` exactly where
/// `accepts_position` does not accept the position. The result is a
/// function of the text alone.
#[verifier::external_body]
fn list_legal_uci(fen: &str) -> (r: Option<Vec<String>>)
    ensures
        match r {
            Some(moves) => legal_moves_of(fen@) == Some(texts(moves@)),
            None => legal_moves_of(fen@) is None,
        },
        r is Some <==> position_accepted(fen@),
{
    let setup = Fen::from_ascii(fen.as_bytes()).ok()?;
    let pos: Chess = setup.into_position(CastlingMode::Standard).ok()?;
    let mode = pos.castles().mode();
    Some(pos.legal_moves().into_iter().map(|mv| UciMove::from_move(mv, mode).to_string()).collect())
}

/// `Chess::default` and `Fen::from_position` of `shakmaty`: the text of the
/// position from which every regular game starts.
#[verifier::external_body]
pub(crate) fn initial_position() -> (fen: String)
    ensures
        fen@ == START_FEN@,
{
    Fen::from_position(&Chess::default(), EnPassantMode::Legal).to_string()
}

/// The position from which every regular game starts.
pub const START_FEN: &'static str = "rnbqkbnr/pppppppp/8/8/8/8/PPPPPPPP/RNBQKBNR w KQkq - 0 1";

/// What `apply_uci_to_fen` answers: the move played, or the first thing
/// that is wrong, in the order position, notation, legality.
pub open spec fn applied_uci(fen: Seq<char>, uci: Seq<char>) -> Result<AppliedRecord, RuleFault> {
    if !position_accepted(fen) {
        Err(RuleFault::Position)
    } else if !uci_well_formed(uci) {
        Err(RuleFault::Notation)
    } else {
        match uci_played(fen, uci) {
            Some(m) => Ok(m),
            None => Err(RuleFault::Legality),
        }
    }
}

/// Why a move could not be played.
pub enum RuleFault {
    Position,
    Notation,
    Legality,
}

/// Plays the move `uci` on the position `fen`. An error names what was
/// wrong and carries the offending text: the position's for `InvalidFen`,
/// the move's for `InvalidUci` and `IllegalMove`.
pub fn apply_uci_to_fen(fen: &str, uci: &str) -> (r: Result<AppliedMove, AnalysisError>)
    ensures
        match r {
            Ok(m) => applied_uci(fen@, uci@) == Ok::<AppliedRecord, RuleFault>(m@),
            Err(AnalysisError::InvalidFen(text)) => applied_uci(fen@, uci@) == Err::<
                AppliedRecord,
                RuleFault,
            >(RuleFault::Position) && text@ == fen@,
            Err(AnalysisError::InvalidUci(text)) => applied_uci(fen@, uci@) == Err::<
                AppliedRecord,
                RuleFault,
            >(RuleFault::Notation) && text@ == uci@,
            Err(AnalysisError::IllegalMove(text)) => applied_uci(fen@, uci@) == Err::<
                AppliedRecord,
                RuleFault,
            >(RuleFault::Legality) && text@ == uci@,
        },
{
    if !accepts_position(fen) {
        return Err(AnalysisError::InvalidFen(fen.to_owned()));
    }
    if !reads_uci(uci) {
        return Err(AnalysisError::InvalidUci(uci.to_owned()));
    }
    match play_uci(fen, uci) {
        Some(m) => Ok(m),
        None => Err(AnalysisError::IllegalMove(uci.to_owned())),
    }
}

/// Lists the legal moves of the position `fen` in coordinate notation.
pub fn legal_uci_moves_for_fen(fen: &str) -> (r: Result<Vec<String>, AnalysisError>)
    ensures
        match r {
            Ok(moves) => legal_moves_of(fen@) == Some(texts(moves@)),
            Err(AnalysisError::InvalidFen(text)) => legal_moves_of(fen@) is None && text@ == fen@,
            Err(_) => false,
        },
        r is Ok <==> position_accepted(fen@),
{
    match list_legal_uci(fen) {
        Some(moves) => Ok(moves),
        None => Err(AnalysisError::InvalidFen(fen.to_owned())),
    }
}

/// The standard notation of the moves `pv`, played one after the other from
/// the position `fen`, up to the first that cannot be played.
pub open spec fn san_line(fen: Seq<char>, pv: Seq<Seq<char>>) -> Seq<Seq<char>>
    decreases pv.len(),
{
    if pv.len() == 0 {
        Seq::empty()
    } else {
        match uci_played(fen, pv[0]) {
            Some(m) => seq![m.san] + san_line(m.fen, pv.drop_first()),
            None => Seq::empty(),
        }
    }
}

/// Writes a line of moves, given in coordinate notation, in standard
/// notation. The line stops, without an error, at the first move that cannot be
/// played; a position that is not accepted gives no moves at all.
pub fn pv_uci_to_san(fen: &str, pv: &Vec<String>) -> (out: Vec<String>)
    ensures
        texts(out@) == san_line(fen@, texts(pv@)),
        out.len() <= pv.len(),
        !position_accepted(fen@) ==> out.len() == 0,
{
    let mut out: Vec<String> = Vec::new();
    let mut current: String = fen.to_owned();
    let mut i: usize = 0;
    let ghost all = texts(pv@);
    assert(all.subrange(0, all.len() as int) == all);
    assert(texts(out@) + san_line(current@, all) == san_line(fen@, all));
    while i < pv.len()
        invariant
            i <= pv.len(),
            out.len() <= i,
            all == texts(pv@),
            i == 0 ==> current@ == fen@,
            !position_accepted(fen@) ==> out.len() == 0 && i == 0,
            texts(out@) + san_line(current@, all.subrange(i as int, all.len() as int)) == san_line(
                fen@,
                all,
            ),
        ensures
            texts(out@) == san_line(fen@, all),
            out.len() <= pv.len(),
            !position_accepted(fen@) ==> out.len() == 0,
        decreases pv.len() - i,
    {
        let ghost rest = all.subrange(i as int, all.len() as int);
        assert(rest[0] == pv@[i as int]@);
        assert(rest.drop_first() == all.subrange(i + 1, all.len() as int));
        match play_uci(current.as_str(), pv[i].as_str()) {
            Some(m) => {
                proof {
                    assert(texts(out@.push(m.san)) == texts(out@).push(m.san@));
                    assert(texts(out@).push(m.san@) + san_line(m.fen@, rest.drop_first()) == texts(
                        out@,
                    ) + (seq![m.san@] + san_line(m.fen@, rest.drop_first())));
                }
                out.push(m.san);
                current = m.fen;
            },
            None => {
                assert(san_line(current@, rest) == Seq::<Seq<char>>::empty());
                assert(texts(out@) + Seq::<Seq<char>>::empty() == texts(out@));
                break ;
            },
        }
        i += 1;
    }
    out
}

} // verus!
