use chess_prep::import::{
    count_game, ingest_of_rows, progress_is_due, split_games, GameChunker, GameHeaders, Ingest,
};
use chess_prep::types::ImportSummary;

#[test]
fn seven_tags_are_kept() {
    let mut headers = GameHeaders::new();
    assert_eq!(headers, GameHeaders::default());
    headers.set_tag(b"Event", "Game One".to_string());
    headers.set_tag(b"Site", "Berlin".to_string());
    headers.set_tag(b"Date", "2024.01.01".to_string());
    headers.set_tag(b"White", "Alice".to_string());
    headers.set_tag(b"Black", "Bob".to_string());
    headers.set_tag(b"Result", "1-0".to_string());
    headers.set_tag(b"ECO", "C20".to_string());
    headers.set_tag(b"Round", "3".to_string());
    headers.set_tag(b"event", "lower".to_string());
    headers.set_tag(b"Events", "longer".to_string());
    headers.set_tag(b"", "empty".to_string());
    headers.set_tag(b"Eco", "case".to_string());
    assert_eq!(headers, GameHeaders {
        event: Some("Game One".to_string()),
        site: Some("Berlin".to_string()),
        date: Some("2024.01.01".to_string()),
        white: Some("Alice".to_string()),
        black: Some("Bob".to_string()),
        result: Some("1-0".to_string()),
        eco: Some("C20".to_string()),
        movetext: String::new(),
    });
    headers.set_tag(b"White", "Carol".to_string());
    assert_eq!(headers.white.as_deref(), Some("Carol"));
}

#[test]
fn moves_are_kept_with_spaces_between() {
    let mut headers = GameHeaders::new();
    assert_eq!(headers.stored_movetext(), None);
    headers.push_san("e4");
    assert_eq!(headers.movetext, "e4");
    headers.push_san("e5");
    headers.push_san("Nf3");
    headers.push_san("Nc6");
    assert_eq!(headers.movetext, "e4 e5 Nf3 Nc6");
    assert_eq!(headers.stored_movetext().as_deref(), Some("e4 e5 Nf3 Nc6"));
    let blank = GameHeaders { movetext: " \n".to_string(), ..GameHeaders::default() };
    assert_eq!(blank.stored_movetext(), None);
}

#[test]
fn one_row_is_an_insert() {
    assert_eq!(ingest_of_rows(1), Ingest::Inserted);
    assert_eq!(ingest_of_rows(0), Ingest::Skipped);
    assert_eq!(ingest_of_rows(2), Ingest::Skipped);
}

#[test]
fn every_game_is_counted_once() {
    let mut summary = ImportSummary::default();
    count_game(&mut summary, Ingest::Inserted);
    count_game(&mut summary, Ingest::Inserted);
    count_game(&mut summary, Ingest::Skipped);
    count_game(&mut summary, Ingest::Unreadable);
    assert_eq!(summary, ImportSummary { total: 4, inserted: 2, skipped: 1, errors: 1 });
    assert_eq!(summary.inserted + summary.skipped + summary.errors, summary.total);
}

#[test]
fn progress_is_due_by_count_or_by_time() {
    assert!(!progress_is_due(0, 0));
    assert!(!progress_is_due(0, 10_000));
    assert!(!progress_is_due(1, 299));
    assert!(progress_is_due(1, 300));
    assert!(progress_is_due(999, 301));
    assert!(progress_is_due(1_000, 0));
    assert!(progress_is_due(28_000, 0));
    assert!(!progress_is_due(1_001, 0));
}

#[test]
fn a_game_ends_where_the_next_begins() {
    let mut chunker = GameChunker::new();
    let text = "\n[Event \"One\"]\n[White \"Alice\"]\n\n1. e4 e5 1-0\n\n[Event \"Two\"]\n\n1. d4 *\n";
    let mut games: Vec<String> = Vec::new();
    for line in text.split_inclusive('\n') {
        if let Some(game) = chunker.push_line(line) {
            games.push(game);
        }
    }
    if let Some(game) = chunker.finish() {
        games.push(game);
    }
    assert_eq!(games, vec![
        "\n[Event \"One\"]\n[White \"Alice\"]\n\n1. e4 e5 1-0\n\n",
        "[Event \"Two\"]\n\n1. d4 *\n",
    ]);
}

#[test]
fn blank_input_holds_no_game() {
    let mut chunker = GameChunker::new();
    assert_eq!(chunker.push_line("\n"), None);
    assert_eq!(chunker.push_line("  \n"), None);
    assert_eq!(chunker.finish(), None);
    assert_eq!(GameChunker::new().finish(), None);
}

#[test]
fn text_before_the_first_event_joins_the_first_game() {
    let mut chunker = GameChunker::new();
    assert_eq!(chunker.push_line("[Site \"Berlin\"]\n"), None);
    assert_eq!(chunker.push_line(" [Event \"indented\"]\n"), None);
    assert_eq!(
        chunker.push_line("[Event \"One\"]\n").as_deref(),
        Some("[Site \"Berlin\"]\n [Event \"indented\"]\n")
    );
    assert_eq!(chunker.finish().as_deref(), Some("[Event \"One\"]\n"));
}

#[test]
fn games_are_split_and_nothing_is_lost() {
    let text = "; a comment\n[Event \"One\"]\n\n1. e4 *\n[Event \"Two\"]\n1. d4 *\n\n\n[Event \"Three\"]";
    let lines: Vec<String> = text.split_inclusive('\n').map(|l| l.to_string()).collect();
    let games = split_games(&lines);
    assert_eq!(games, vec![
        "; a comment\n",
        "[Event \"One\"]\n\n1. e4 *\n",
        "[Event \"Two\"]\n1. d4 *\n\n\n",
        "[Event \"Three\"]",
    ]);
    assert_eq!(games.concat(), text);
    assert!(split_games(&vec![]).is_empty());
    assert!(split_games(&vec!["\n".to_string(), " \n".to_string()]).is_empty());
    assert_eq!(split_games(&vec!["\n".to_string(), "x\n".to_string()]), vec!["\nx\n"]);
}
