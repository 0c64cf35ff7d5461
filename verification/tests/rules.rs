use chess_prep::rules::{apply_uci_to_fen, legal_uci_moves_for_fen, pv_uci_to_san};
use chess_prep::types::AnalysisError;
use shakmaty::fen::Fen;
use shakmaty::san::San;
use shakmaty::uci::UciMove;
use shakmaty::{CastlingMode, Chess, Position};

const START: &str = "rnbqkbnr/pppppppp/8/8/8/8/PPPPPPPP/RNBQKBNR w KQkq - 0 1";

fn moves(list: &[&str]) -> Vec<String> {
    list.iter().map(|m| m.to_string()).collect()
}

#[test]
fn apply_legal_uci_move() {
    let start = "rn1qkbnr/pppbpppp/8/3p4/8/3P4/PPP1PPPP/RNBQKBNR w KQkq - 0 2";
    let out = apply_uci_to_fen(start, "e2e4").expect("legal move");
    assert_eq!(out.uci, "e2e4");
    assert_eq!(out.san, "e4");
    assert!(!out.fen.is_empty());
}

#[test]
fn rejects_invalid_fen() {
    let err = apply_uci_to_fen("not-a-fen", "e2e4").unwrap_err();
    match err {
        AnalysisError::InvalidFen(_) => {}
        other => panic!("unexpected error: {other:?}"),
    }
}

#[test]
fn rejects_invalid_uci() {
    let start = "rn1qkbnr/pppbpppp/8/3p4/8/3P4/PPP1PPPP/RNBQKBNR w KQkq - 0 2";
    let err = apply_uci_to_fen(start, "bad").unwrap_err();
    match err {
        AnalysisError::InvalidUci(_) => {}
        other => panic!("unexpected error: {other:?}"),
    }
}

#[test]
fn rejects_illegal_uci() {
    let start = "rn1qkbnr/pppbpppp/8/3p4/8/3P4/PPP1PPPP/RNBQKBNR w KQkq - 0 2";
    let err = apply_uci_to_fen(start, "e2e5").unwrap_err();
    match err {
        AnalysisError::IllegalMove(_) => {}
        other => panic!("unexpected error: {other:?}"),
    }
}

#[test]
fn legal_moves_include_common_opening_moves() {
    let start = "rnbqkbnr/pppppppp/8/8/8/8/PPPPPPPP/RNBQKBNR w KQkq - 0 1";
    let legal_moves = legal_uci_moves_for_fen(start).expect("legal moves");

    assert!(legal_moves.contains(&"e2e4".to_string()));
    assert!(legal_moves.contains(&"g1f3".to_string()));
}

#[test]
fn legal_moves_reject_invalid_fen() {
    let err = legal_uci_moves_for_fen("not-a-fen").unwrap_err();
    match err {
        AnalysisError::InvalidFen(_) => {}
        other => panic!("unexpected error: {other:?}"),
    }
}

#[test]
fn applied_move_gives_the_next_position() {
    let out = apply_uci_to_fen(START, "e2e4").expect("legal move");
    assert_eq!(out.san, "e4");
    assert_eq!(out.uci, "e2e4");
    assert_eq!(out.fen, "rnbqkbnr/pppppppp/8/8/4P3/8/PPPP1PPP/RNBQKBNR b KQkq - 0 1");
}

#[test]
fn errors_carry_the_offending_text() {
    match apply_uci_to_fen("not-a-fen", "bad") {
        Err(AnalysisError::InvalidFen(text)) => assert_eq!(text, "not-a-fen"),
        other => panic!("unexpected result: {other:?}"),
    }
    match apply_uci_to_fen(START, "bad") {
        Err(AnalysisError::InvalidUci(text)) => assert_eq!(text, "bad"),
        other => panic!("unexpected result: {other:?}"),
    }
    match apply_uci_to_fen(START, "e2e5") {
        Err(AnalysisError::IllegalMove(text)) => assert_eq!(text, "e2e5"),
        other => panic!("unexpected result: {other:?}"),
    }
    match legal_uci_moves_for_fen("8/8/8/8/8/8/8/8 w - - 0 1") {
        Err(AnalysisError::InvalidFen(text)) => assert_eq!(text, "8/8/8/8/8/8/8/8 w - - 0 1"),
        other => panic!("unexpected result: {other:?}"),
    }
}

#[test]
fn castling_is_written_as_a_king_move() {
    let fen = "r3k2r/pppppppp/8/8/8/8/PPPPPPPP/R3K2R w KQkq - 0 1";
    let out = apply_uci_to_fen(fen, "e1g1").expect("legal move");
    assert_eq!(out.san, "O-O");
    assert_eq!(out.uci, "e1g1");
    let out = apply_uci_to_fen(fen, "e1h1").expect("legal move");
    assert_eq!(out.san, "O-O");
    assert_eq!(out.uci, "e1g1");
}

#[test]
fn start_position_has_twenty_legal_moves() {
    let legal_moves = legal_uci_moves_for_fen(START).expect("legal moves");
    assert_eq!(legal_moves.len(), 20);
    assert!(!legal_moves.contains(&"e2e5".to_string()));
}

#[test]
fn line_is_written_in_standard_notation() {
    let san = pv_uci_to_san(START, &moves(&["e2e4", "e7e5", "g1f3", "b8c6", "f1b5"]));
    assert_eq!(san, vec!["e4", "e5", "Nf3", "Nc6", "Bb5"]);
}

#[test]
fn line_stops_at_the_first_move_that_cannot_be_played() {
    assert_eq!(pv_uci_to_san(START, &moves(&["e2e4", "e7e5", "e4e5", "g1f3"])), vec!["e4", "e5"]);
    assert_eq!(pv_uci_to_san(START, &moves(&["e2e4", "zz", "g1f3"])), vec!["e4"]);
    assert!(pv_uci_to_san(START, &moves(&["e7e5", "e2e4"])).is_empty());
    assert!(pv_uci_to_san(START, &moves(&[])).is_empty());
}

#[test]
fn position_that_is_not_accepted_gives_no_moves() {
    assert!(pv_uci_to_san("not-a-fen", &moves(&["e2e4", "e7e5"])).is_empty());
    assert!(pv_uci_to_san("", &moves(&["e2e4"])).is_empty());
}

#[test]
fn promotion_is_written_without_a_check_mark() {
    let fen = "7k/4P3/8/8/8/8/8/K7 w - - 0 1";
    assert_eq!(pv_uci_to_san(fen, &moves(&["e7e8q"])), vec!["e8=Q"]);
    let out = apply_uci_to_fen(fen, "e7e8q").expect("legal move");
    assert_eq!(out.fen, "4Q2k/8/8/8/8/8/8/K7 b - - 0 1");
}

/// The same line, played on one board from the first move to the last.
fn played_on_one_board(fen: &str, pv: &[String]) -> Vec<String> {
    let Ok(setup) = Fen::from_ascii(fen.as_bytes()) else {
        return Vec::new();
    };
    let Ok(mut position) = setup.into_position::<Chess>(CastlingMode::Standard) else {
        return Vec::new();
    };
    let mut out = Vec::new();
    for uci in pv {
        let Ok(parsed) = UciMove::from_ascii(uci.as_bytes()) else {
            break;
        };
        let Ok(mv) = parsed.to_move(&position) else {
            break;
        };
        out.push(San::from_move(&position, mv).to_string());
        position.play_unchecked(mv);
    }
    out
}

#[test]
fn line_agrees_with_play_on_one_board() {
    let cases: [(&str, &[&str]); 9] = [
        (START, &["e2e4", "a7a6", "e4e5", "d7d5", "e5d6", "c7d6", "g1f3", "b8c6", "f1e2", "g8f6", "e1g1"]),
        (START, &["e2e4", "e7e5", "g1f3", "b8c6", "f1b5", "a7a6", "b5c6", "d7c6", "e1g1", "f7f6", "d2d4"]),
        (START, &["g1f3", "g8f6", "f3g1", "f6g8", "g1f3", "g8f6", "f3g1", "f6g8", "e2e4"]),
        ("r3k2r/8/8/8/8/8/8/R3K2R w KQkq - 0 1", &["e1g1", "e8c8", "f1e1", "d8e8", "e1e8"]),
        ("r3k2r/8/8/8/8/8/8/R3K2R w KQkq - 0 1", &["a1a8", "h8h1", "e1d2", "e8e7"]),
        ("8/P6k/8/8/8/8/p6K/8 w - - 10 40", &["a7a8n", "a2a1q", "a8b6", "a1h8"]),
        ("rnbqkbnr/ppp1pppp/8/8/3pP3/8/PPPP1PPP/RNBQKBNR b KQkq e3 0 2", &["d4e3", "d2e3", "d8d1", "e1d1"]),
        ("4k3/8/8/8/1Pp5/8/8/4K2B b - b3 0 1", &["c4b3", "h1c6"]),
        ("8/8/8/8/8/5k2/7q/7K w - - 0 1", &["h1h2"]),
    ];
    for (fen, pv) in cases {
        let pv = moves(pv);
        let expected = played_on_one_board(fen, &pv);
        assert_eq!(pv_uci_to_san(fen, &pv), expected, "{fen} {pv:?}");
    }
    let pv = moves(&["e2e4", "a7a6", "e4e5", "d7d5", "e5d6"]);
    assert_eq!(pv_uci_to_san(START, &pv), vec!["e4", "a6", "e5", "d5", "exd6"]);
}
