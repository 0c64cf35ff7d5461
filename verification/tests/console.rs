use chess_prep::console::{ranked_line, read_session_command, summary_line, SessionCommand};
use chess_prep::types::{EngineAnalysis, EngineLine};

fn refused(input: &str) -> String {
    match read_session_command(input) {
        SessionCommand::Refuse(text) => text,
        _ => panic!("the command should be refused"),
    }
}

#[test]
fn blank_lines_ask_for_nothing() {
    assert!(matches!(read_session_command(""), SessionCommand::Skip));
    assert!(matches!(read_session_command("\n"), SessionCommand::Skip));
    assert!(matches!(read_session_command("  \t \r\n"), SessionCommand::Skip));
}

#[test]
fn quit_and_ping_stand_alone() {
    assert!(matches!(read_session_command("quit\n"), SessionCommand::Quit));
    assert!(matches!(read_session_command("quit\r\n\n"), SessionCommand::Quit));
    assert!(matches!(read_session_command("ping"), SessionCommand::Ping));
    assert_eq!(refused(" quit\n"), "unknown command");
    assert_eq!(refused("ping \n"), "unknown command");
    assert_eq!(refused("hello\n"), "unknown command");
    assert_eq!(refused("analyze\n"), "unknown command");
    assert_eq!(refused("analyze 12 fen\n"), "unknown command");
}

#[test]
fn analyze_takes_depth_and_position() {
    match read_session_command("analyze\t12\t 8/8/8/8/8/8/8/8 w - - 0 1 \n") {
        SessionCommand::Analyze { depth, fen } => {
            assert_eq!(depth, 12);
            assert_eq!(fen, "8/8/8/8/8/8/8/8 w - - 0 1");
        }
        _ => panic!("the command should be an analysis"),
    }
    match read_session_command("analyze\t0\ta\tb\n") {
        SessionCommand::Analyze { depth, fen } => {
            assert_eq!(depth, 0);
            assert_eq!(fen, "a\tb");
        }
        _ => panic!("the command should be an analysis"),
    }
    assert_eq!(refused("analyze\t12\n"), "fen is required");
    assert_eq!(refused("analyze\t\n"), "fen is required");
    assert_eq!(refused("analyze\tx\t  \n"), "fen is required");
    assert_eq!(refused("analyze\tx\tfen\n"), "invalid depth 'x', expected a non-negative integer");
    assert_eq!(refused("analyze\t\tfen\n"), "invalid depth '', expected a non-negative integer");
}

#[test]
fn analyze_multipv_takes_depth_width_and_position() {
    match read_session_command("analyze-multipv\t20\t3\tsome fen\r\n") {
        SessionCommand::AnalyzeMultipv { depth, multipv, fen } => {
            assert_eq!(depth, 20);
            assert_eq!(multipv, 3);
            assert_eq!(fen, "some fen");
        }
        _ => panic!("the command should be an analysis"),
    }
    assert_eq!(refused("analyze-multipv\t20\t3\n"), "fen is required");
    assert_eq!(refused("analyze-multipv\t20\n"), "fen is required");
    assert_eq!(
        refused("analyze-multipv\tdeep\t0\tfen\n"),
        "invalid depth 'deep', expected a non-negative integer"
    );
    assert_eq!(
        refused("analyze-multipv\t20\t0\tfen\n"),
        "invalid multipv, expected an integer in range 1..=10"
    );
    assert_eq!(
        refused("analyze-multipv\t20\t11\tfen\n"),
        "invalid multipv, expected an integer in range 1..=10"
    );
    assert_eq!(
        refused("analyze-multipv\t20\ta b\tfen\n"),
        "invalid multipv 'a b', expected a non-negative integer"
    );
}

fn analysis() -> EngineAnalysis {
    EngineAnalysis {
        depth: 16,
        score_cp: Some(-34),
        score_mate: None,
        bestmove: Some("e4".to_string()),
        pv: vec!["e2e4".to_string(), "e7e5".to_string()],
        lines: vec![],
    }
}

#[test]
fn analysis_is_summed_up_in_fields() {
    assert_eq!(summary_line("ok", &analysis()), "ok\t16\t-34\t\te4\te2e4 e7e5");
    assert_eq!(summary_line("", &analysis()), "16\t-34\t\te4\te2e4 e7e5");
    let mate = EngineAnalysis {
        depth: 0,
        score_cp: None,
        score_mate: Some(3),
        bestmove: None,
        pv: vec![],
        lines: vec![],
    };
    assert_eq!(summary_line("summary", &mate), "summary\t0\t\t3\t\t");
    let odd = EngineAnalysis {
        depth: 4294967295,
        score_cp: Some(i32::MIN),
        score_mate: Some(i32::MAX),
        bestmove: Some("a\tb".to_string()),
        pv: vec!["x\ny".to_string()],
        lines: vec![],
    };
    assert_eq!(
        summary_line("ok-multipv", &odd),
        "ok-multipv\t4294967295\t-2147483648\t2147483647\ta b\tx y"
    );
}

#[test]
fn ranked_line_has_both_notations() {
    let line = EngineLine {
        multipv_rank: 2,
        depth: 14,
        score_cp: Some(0),
        score_mate: Some(-1),
        pv: vec!["e2e4".to_string(), "e7e5".to_string(), "g1f3".to_string()],
        san_pv: vec!["e4".to_string(), "e5".to_string()],
    };
    assert_eq!(ranked_line(&line), "line\t2\t14\t0\t-1\te2e4 e7e5 g1f3\te4 e5");
    let bare = EngineLine {
        multipv_rank: 10,
        depth: 1,
        score_cp: None,
        score_mate: None,
        pv: vec![],
        san_pv: vec![],
    };
    assert_eq!(ranked_line(&bare), "line\t10\t1\t\t\t\t");
}
