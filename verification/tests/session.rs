use chess_prep::protocol::{
    quit_command, Analysis, AnalysisStep, Awaited, Handshake, HandshakeStep, ANALYSIS_LINES,
    TOKEN_WAIT_LINES,
};
use chess_prep::session::{
    analyze_position, analyze_position_multipv, collect_analysis_result, wait_for_uci_token,
    EngineSession,
};
use chess_prep::types::{EngineAnalysis, EngineError};

const START: &str = "rnbqkbnr/pppppppp/8/8/8/8/PPPPPPPP/RNBQKBNR w KQkq - 0 1";

fn output(lines: &[&str]) -> Vec<String> {
    lines.iter().map(|l| format!("{l}\n")).collect()
}

fn protocol_message(result: Result<EngineAnalysis, EngineError>) -> String {
    match result {
        Err(EngineError::Protocol(text)) => text,
        other => panic!("expected a protocol error, got {other:?}"),
    }
}

fn searching() -> Analysis {
    let (analysis, _) = Analysis::begin(START, 12, 2);
    match analysis.on_line("readyok\n") {
        AnalysisStep::Pending { next, .. } => next,
        _ => panic!("the search should have started"),
    }
}

#[test]
fn handshake_sends_uci_then_isready() {
    let (handshake, send) = Handshake::begin();
    assert_eq!(send, vec!["uci"]);
    assert!(matches!(handshake.awaited, Awaited::UciOk));
    assert_eq!(handshake.left, 20_000);
    assert_eq!(TOKEN_WAIT_LINES, 20_000);

    let handshake = match handshake.on_line("id name Engine\n") {
        HandshakeStep::Pending { next, send } => {
            assert!(send.is_empty());
            assert_eq!(next.left, 19_999);
            next
        }
        _ => panic!("the handshake should wait"),
    };
    let handshake = match handshake.on_line("  uciok \r\n") {
        HandshakeStep::Pending { next, send } => {
            assert_eq!(send, vec!["isready"]);
            assert!(matches!(next.awaited, Awaited::ReadyOk));
            assert_eq!(next.left, 20_000);
            next
        }
        _ => panic!("the handshake should go on"),
    };
    assert!(matches!(handshake.on_line("readyok"), HandshakeStep::Ready));
}

#[test]
fn handshake_wants_the_token_alone_on_its_line() {
    let (handshake, _) = Handshake::begin();
    assert!(matches!(handshake.on_line("uciok ok\n"), HandshakeStep::Pending { .. }));
    assert!(matches!(handshake.on_line("readyok\n"), HandshakeStep::Pending { .. }));
    assert!(matches!(handshake.on_line("UCIOK\n"), HandshakeStep::Pending { .. }));
}

#[test]
fn handshake_gives_up_after_the_last_line_allowed() {
    let handshake = Handshake { awaited: Awaited::UciOk, left: 1 };
    match handshake.on_line("noise\n") {
        HandshakeStep::Failed(EngineError::Protocol(text)) => {
            assert_eq!(text, "did not receive 'uciok' from engine")
        }
        _ => panic!("the handshake should fail"),
    }
    let handshake = Handshake { awaited: Awaited::ReadyOk, left: 1 };
    assert!(matches!(handshake.on_line("readyok\n"), HandshakeStep::Ready));
    match handshake.on_line("noise\n") {
        HandshakeStep::Failed(EngineError::Protocol(text)) => {
            assert_eq!(text, "did not receive 'readyok' from engine")
        }
        _ => panic!("the handshake should fail"),
    }
}

#[test]
fn handshake_reports_a_closed_output() {
    let (handshake, _) = Handshake::begin();
    match handshake.on_eof() {
        EngineError::Protocol(text) => {
            assert_eq!(text, "engine closed output while waiting for 'uciok'")
        }
        other => panic!("unexpected error: {other:?}"),
    }
    match (Handshake { awaited: Awaited::ReadyOk, left: 5 }).on_eof() {
        EngineError::Protocol(text) => {
            assert_eq!(text, "engine closed output while waiting for 'readyok'")
        }
        other => panic!("unexpected error: {other:?}"),
    }
}

#[test]
fn analysis_sends_normalized_width_and_depth() {
    let (analysis, send) = Analysis::begin(START, 0, 0);
    assert_eq!(send, vec!["setoption name MultiPV value 1", "isready"]);
    match analysis.on_line("readyok\n") {
        AnalysisStep::Pending { send, .. } => {
            assert_eq!(send, vec![format!("position fen {START}"), "go depth 18".to_string()]);
        }
        _ => panic!("the search should have started"),
    }

    let (analysis, send) = Analysis::begin("8/8/8/8/8/8/8/8 w - - 0 1", 4_000_000_000, 99);
    assert_eq!(send, vec!["setoption name MultiPV value 10", "isready"]);
    match analysis.on_line("readyok\n") {
        AnalysisStep::Pending { send, .. } => {
            assert_eq!(send, vec!["position fen 8/8/8/8/8/8/8/8 w - - 0 1", "go depth 4000000000"]);
        }
        _ => panic!("the search should have started"),
    }

    let (_, send) = Analysis::begin(START, 7, 3);
    assert_eq!(send, vec!["setoption name MultiPV value 3", "isready"]);
}

#[test]
fn analysis_waits_for_readyok_first() {
    let (analysis, _) = Analysis::begin(START, 12, 1);
    let analysis = match analysis.on_line("info depth 5 score cp 3 pv e2e4\n") {
        AnalysisStep::Pending { next, send } => {
            assert!(send.is_empty());
            next
        }
        _ => panic!("the analysis should wait"),
    };
    match analysis.on_eof() {
        EngineError::Protocol(text) => {
            assert_eq!(text, "engine closed output while waiting for 'readyok'")
        }
        other => panic!("unexpected error: {other:?}"),
    }
}

#[test]
fn search_ends_with_bestmove() {
    let mut analysis = searching();
    for line in [
        "info depth 10 multipv 2 score cp 11 pv d2d4 d7d5\n",
        "info string something else\n",
        "info depth 10 multipv 1 score cp 25 pv e2e4 e7e5\n",
        "info depth 11 multipv 1 score cp 31 pv e2e4 c7c5\n",
        "info depth 11 multipv 3 score cp 1 pv c2c4\n",
        "\n",
    ] {
        analysis = match analysis.on_line(line) {
            AnalysisStep::Pending { next, send } => {
                assert!(send.is_empty());
                next
            }
            _ => panic!("the search should go on"),
        };
    }
    let result = match analysis.on_line("bestmove e2e4 ponder c7c5\n") {
        AnalysisStep::Done(result) => result,
        _ => panic!("the search should be done"),
    };
    assert_eq!(result.depth, 11);
    assert_eq!(result.score_cp, Some(31));
    assert_eq!(result.score_mate, None);
    assert_eq!(result.pv, vec!["e2e4", "c7c5"]);
    assert_eq!(result.bestmove.as_deref(), Some("e4"));
    assert_eq!(result.lines.len(), 2);
    assert_eq!(result.lines[0].multipv_rank, 1);
    assert_eq!(result.lines[0].san_pv, vec!["e4", "c5"]);
    assert_eq!(result.lines[1].multipv_rank, 2);
    assert_eq!(result.lines[1].depth, 10);
    assert_eq!(result.lines[1].score_cp, Some(11));
    assert_eq!(result.lines[1].pv, vec!["d2d4", "d7d5"]);
    assert_eq!(result.lines[1].san_pv, vec!["d4", "d5"]);
}

#[test]
fn search_without_info_fails() {
    match searching().on_line("bestmove e2e4\n") {
        AnalysisStep::Failed(EngineError::Protocol(text)) => {
            assert_eq!(text, "engine returned no analysis info for this position")
        }
        _ => panic!("the search should fail"),
    }
    let analysis = match searching().on_line("info depth 9 multipv 3 pv e2e4\n") {
        AnalysisStep::Pending { next, .. } => next,
        _ => panic!("the search should go on"),
    };
    match analysis.on_line("bestmove (none)\n") {
        AnalysisStep::Failed(EngineError::Protocol(text)) => {
            assert_eq!(text, "engine returned no analysis info for this position")
        }
        _ => panic!("the search should fail"),
    }
}

#[test]
fn search_reports_a_closed_output() {
    match searching().on_eof() {
        EngineError::Protocol(text) => {
            assert_eq!(text, "engine closed output before sending bestmove")
        }
        other => panic!("unexpected error: {other:?}"),
    }
}

#[test]
fn search_gives_up_after_the_last_line_allowed() {
    assert_eq!(ANALYSIS_LINES, 50_000);
    let mut analysis = searching();
    for _ in 0..49_999 {
        analysis = match analysis.on_line("info depth 3 score cp 1 pv e2e4\n") {
            AnalysisStep::Pending { next, .. } => next,
            _ => panic!("the search should go on"),
        };
    }
    match analysis.on_line("info depth 3 score cp 1 pv e2e4\n") {
        AnalysisStep::Failed(EngineError::Protocol(text)) => {
            assert_eq!(text, "did not receive 'bestmove' from engine")
        }
        _ => panic!("the search should fail"),
    }
}

#[test]
fn announced_move_is_the_fallback_best_move() {
    let analysis = match searching().on_line("info depth 4 score cp 9\n") {
        AnalysisStep::Pending { next, .. } => next,
        _ => panic!("the search should go on"),
    };
    match analysis.on_line("bestmove g1f3\n") {
        AnalysisStep::Done(result) => {
            assert_eq!(result.bestmove.as_deref(), Some("g1f3"));
            assert!(result.pv.is_empty());
            assert_eq!(result.depth, 4);
        }
        _ => panic!("the search should be done"),
    }
    let analysis = match searching().on_line("info score cp 9\n") {
        AnalysisStep::Pending { next, .. } => next,
        _ => panic!("the search should go on"),
    };
    match analysis.on_line("bestmove (none)\n") {
        AnalysisStep::Done(result) => {
            assert_eq!(result.bestmove, None);
            assert_eq!(result.depth, 12);
        }
        _ => panic!("the search should be done"),
    }
    let analysis = match searching().on_line("info score cp 9 pv zzzz\n") {
        AnalysisStep::Pending { next, .. } => next,
        _ => panic!("the search should go on"),
    };
    match analysis.on_line("bestmove\n") {
        AnalysisStep::Done(result) => {
            assert_eq!(result.bestmove.as_deref(), Some("zzzz"));
            assert!(result.lines[0].san_pv.is_empty());
        }
        _ => panic!("the search should be done"),
    }
}

#[test]
fn quit_ends_the_engine() {
    assert_eq!(quit_command(), "quit");
}

#[test]
fn whole_session_on_recorded_output() {
    let lines = output(&[
        "Engine 1.0 by someone",
        "id name Engine",
        "uciok",
        "readyok",
        "info string NNUE evaluation enabled",
        "readyok",
        "info depth 1 seldepth 1 multipv 1 score cp 20 nodes 20 nps 20000 pv e2e4",
        "info depth 2 seldepth 2 multipv 1 score cp 34 nodes 60 nps 30000 pv e2e4 e7e5 g1f3",
        "bestmove e2e4 ponder e7e5",
    ]);
    let result = analyze_position(&lines, START, 2).expect("analysis should succeed");
    assert_eq!(result.depth, 2);
    assert_eq!(result.score_cp, Some(34));
    assert_eq!(result.score_mate, None);
    assert_eq!(result.bestmove.as_deref(), Some("e4"));
    assert_eq!(result.pv, vec!["e2e4", "e7e5", "g1f3"]);
    assert_eq!(result.lines.len(), 1);
    assert_eq!(result.lines[0].multipv_rank, 1);
    assert_eq!(result.lines[0].san_pv, vec!["e4", "e5", "Nf3"]);
}

#[test]
fn whole_session_with_ranked_lines() {
    let lines = output(&[
        "uciok",
        "readyok",
        "readyok",
        "info depth 8 multipv 1 score cp 30 pv e2e4 e7e5",
        "info depth 8 multipv 2 score cp 25 pv d2d4 d7d5",
        "info depth 8 multipv 3 score mate 4 pv g1f3",
        "bestmove e2e4",
    ]);
    let result = analyze_position_multipv(&lines, START, 8, 2).expect("analysis should succeed");
    assert_eq!(result.lines.len(), 2);
    assert_eq!(result.lines[1].san_pv, vec!["d4", "d5"]);
    let result = analyze_position_multipv(&lines, START, 8, 3).expect("analysis should succeed");
    assert_eq!(result.lines.len(), 3);
    assert_eq!(result.lines[2].score_mate, Some(4));
    assert_eq!(result.lines[2].score_cp, None);
    let result = analyze_position(&lines, START, 8).expect("analysis should succeed");
    assert_eq!(result.lines.len(), 1);
}

#[test]
fn session_without_usable_info_is_a_protocol_error() {
    let lines = output(&["uciok", "readyok", "readyok", "info string nothing", "bestmove e2e4"]);
    assert_eq!(
        protocol_message(analyze_position(&lines, START, 8)),
        "engine returned no analysis info for this position"
    );
    let lines = output(&["uciok", "readyok", "readyok", "info depth 3 multipv 2 pv e2e4", "bestmove e2e4"]);
    assert_eq!(
        protocol_message(analyze_position(&lines, START, 8)),
        "engine returned no analysis info for this position"
    );
}

#[test]
fn session_fails_where_the_output_ends() {
    assert_eq!(
        protocol_message(analyze_position(&output(&[]), START, 8)),
        "engine closed output while waiting for 'uciok'"
    );
    assert_eq!(
        protocol_message(analyze_position(&output(&["uciok"]), START, 8)),
        "engine closed output while waiting for 'readyok'"
    );
    assert_eq!(
        protocol_message(analyze_position(&output(&["uciok", "readyok"]), START, 8)),
        "engine closed output while waiting for 'readyok'"
    );
    assert_eq!(
        protocol_message(analyze_position(
            &output(&["uciok", "readyok", "readyok", "info depth 1 pv e2e4"]),
            START,
            8
        )),
        "engine closed output before sending bestmove"
    );
}

#[test]
fn session_gives_up_on_a_token_that_never_comes() {
    let lines: Vec<String> = (0..20_000).map(|i| format!("noise {i}\n")).collect();
    assert_eq!(
        protocol_message(analyze_position(&lines, START, 8)),
        "did not receive 'uciok' from engine"
    );
    let mut lines: Vec<String> = (0..19_999).map(|i| format!("noise {i}\n")).collect();
    lines.push("uciok\n".to_string());
    assert_eq!(
        protocol_message(analyze_position(&lines, START, 8)),
        "engine closed output while waiting for 'readyok'"
    );
}

#[test]
fn session_is_reused_for_a_second_analysis() {
    let lines = output(&[
        "uciok",
        "readyok",
        "readyok",
        "info depth 3 score cp 10 pv e2e4",
        "bestmove e2e4",
        "readyok",
        "info depth 5 score cp -7 pv e7e5",
        "bestmove e7e5",
    ]);
    let mut session = EngineSession::start(&lines).expect("handshake should succeed");
    assert_eq!(session.lines_consumed(), 2);
    let first = session.analyze(&lines, START, 3).expect("first analysis");
    assert_eq!(first.bestmove.as_deref(), Some("e4"));
    assert_eq!(session.lines_consumed(), 5);
    let second = session
        .analyze_multipv(&lines, "rnbqkbnr/pppppppp/8/8/4P3/8/PPPP1PPP/RNBQKBNR b KQkq - 0 1", 5, 4)
        .expect("second analysis");
    assert_eq!(second.bestmove.as_deref(), Some("e5"));
    assert_eq!(second.score_cp, Some(-7));
    assert_eq!(session.lines_consumed(), 8);
    match session.analyze(&lines, START, 3) {
        Err(EngineError::Protocol(text)) => {
            assert_eq!(text, "engine closed output while waiting for 'readyok'")
        }
        other => panic!("unexpected result: {other:?}"),
    }
    assert_eq!(session.lines_consumed(), 8);
}

#[test]
fn handshake_failure_gives_no_session() {
    match EngineSession::start(&output(&["hello", "uciok"])) {
        Err(EngineError::Protocol(text)) => {
            assert_eq!(text, "engine closed output while waiting for 'readyok'")
        }
        Ok(_) => panic!("there should be no session"),
        Err(other) => panic!("unexpected error: {other:?}"),
    }
}

#[test]
fn wait_ends_behind_the_token() {
    let lines = output(&["id name Engine", " uciok ", "readyok", "uciok"]);
    assert!(matches!(wait_for_uci_token(&lines, 0, "uciok", 20_000), Ok(2)));
    assert!(matches!(wait_for_uci_token(&lines, 0, "uciok", 2), Ok(2)));
    assert!(matches!(wait_for_uci_token(&lines, 2, "uciok", 2), Ok(4)));
    assert!(matches!(wait_for_uci_token(&lines, 1, "readyok", 5), Ok(3)));
}

#[test]
fn wait_fails_at_the_end_of_the_output_or_of_the_lines_allowed() {
    fn message(result: Result<usize, EngineError>) -> String {
        match result {
            Err(EngineError::Protocol(text)) => text,
            other => panic!("expected a protocol error, got {other:?}"),
        }
    }
    let lines = output(&["id name Engine", "uciok", "readyok"]);
    assert_eq!(
        message(wait_for_uci_token(&lines, 0, "uciok", 1)),
        "did not receive 'uciok' from engine"
    );
    assert_eq!(
        message(wait_for_uci_token(&lines, 0, "uciok", 0)),
        "did not receive 'uciok' from engine"
    );
    assert_eq!(
        message(wait_for_uci_token(&lines, 7, "uciok", 0)),
        "did not receive 'uciok' from engine"
    );
    assert_eq!(
        message(wait_for_uci_token(&lines, 2, "uciok", 5)),
        "engine closed output while waiting for 'uciok'"
    );
    assert_eq!(
        message(wait_for_uci_token(&lines, 3, "bestmove", 1)),
        "engine closed output while waiting for 'bestmove'"
    );
    assert_eq!(
        message(wait_for_uci_token(&lines, 0, "token", 3)),
        "did not receive 'token' from engine"
    );
    assert_eq!(
        message(wait_for_uci_token(&lines, 0, "token", 4)),
        "engine closed output while waiting for 'token'"
    );
}

#[test]
fn search_is_collected_from_recorded_output() {
    let lines = output(&[
        "readyok",
        "info depth 16 multipv 1 score cp 20 pv e2e4 e7e5",
        "info depth 21 multipv 1 score cp 34 pv d2d4 d7d5 c2c4",
        "info depth 16 multipv 1 score cp 99 pv g1f3",
        "info depth 21 multipv 2 score cp 30",
        "info depth 21 multipv 2 score cp 31 pv e2e4",
        "info depth 21 multipv 2 score cp 32",
        "bestmove d2d4 ponder d7d5",
        "info depth 40 score cp 1 pv a2a3",
    ]);
    let (result, next) = collect_analysis_result(&lines, 1, START, 0, 2);
    let result = result.expect("analysis should succeed");
    assert_eq!(next, 8);
    assert_eq!(result.depth, 21);
    assert_eq!(result.score_cp, Some(34));
    assert_eq!(result.bestmove.as_deref(), Some("d4"));
    assert_eq!(result.pv, vec!["d2d4", "d7d5", "c2c4"]);
    assert_eq!(result.lines.len(), 2);
    assert_eq!(result.lines[1].score_cp, Some(31));
    assert_eq!(result.lines[1].san_pv, vec!["e4"]);

    let (result, next) = collect_analysis_result(&lines, 8, START, 0, 2);
    assert_eq!(next, 9);
    match result {
        Err(EngineError::Protocol(text)) => {
            assert_eq!(text, "engine closed output before sending bestmove")
        }
        other => panic!("unexpected result: {other:?}"),
    }
    let (result, next) = collect_analysis_result(&lines, 7, START, 0, 2);
    assert_eq!(next, 8);
    assert_eq!(
        protocol_message(result),
        "engine returned no analysis info for this position"
    );
}

#[test]
fn record_without_depth_takes_the_depth_asked_for() {
    let lines = output(&["info score cp 5 pv e2e4", "bestmove e2e4"]);
    let (result, _) = collect_analysis_result(&lines, 0, START, 0, 1);
    assert_eq!(result.expect("analysis should succeed").depth, 18);
    let (result, _) = collect_analysis_result(&lines, 0, START, 31, 1);
    assert_eq!(result.expect("analysis should succeed").depth, 31);
}
