use chess_prep::options::{
    optional_text, parse_analyze_multipv_options, parse_analyze_options, parse_i64,
    parse_multipv, parse_result, parse_search_options, parse_u32, tsv_escape,
    AnalyzeOptions,
};
use chess_prep::types::{GameFilter, GameResultFilter, Pagination};

fn args(list: &[&str]) -> Vec<String> {
    list.iter().map(|a| a.to_string()).collect()
}

#[test]
fn results_are_read_by_name() {
    assert_eq!(parse_result("any"), Ok(GameResultFilter::Any));
    assert_eq!(parse_result("1-0"), Ok(GameResultFilter::WhiteWin));
    assert_eq!(parse_result("0-1"), Ok(GameResultFilter::BlackWin));
    assert_eq!(parse_result("1/2-1/2"), Ok(GameResultFilter::Draw));
    assert_eq!(
        parse_result("draw"),
        Err("invalid result 'draw', expected one of: any, 1-0, 0-1, 1/2-1/2".to_string())
    );
    assert_eq!(
        parse_result(""),
        Err("invalid result '', expected one of: any, 1-0, 0-1, 1/2-1/2".to_string())
    );
}

#[test]
fn numbers_are_read_or_refused() {
    assert_eq!(parse_u32("limit", "25"), Ok(25));
    assert_eq!(parse_u32("limit", "+25"), Ok(25));
    assert_eq!(
        parse_u32("limit", "-1"),
        Err("invalid limit '-1', expected a non-negative integer".to_string())
    );
    assert_eq!(
        parse_u32("depth", " 5"),
        Err("invalid depth ' 5', expected a non-negative integer".to_string())
    );
    assert_eq!(parse_i64("game_id", "-42"), Ok(-42));
    assert_eq!(parse_i64("game_id", "9223372036854775807"), Ok(i64::MAX));
    assert_eq!(parse_i64("game_id", "-9223372036854775808"), Ok(i64::MIN));
    assert_eq!(
        parse_i64("game_id", "9223372036854775808"),
        Err("invalid game_id '9223372036854775808', expected an integer".to_string())
    );
    assert_eq!(
        parse_i64("workspace_id", "x"),
        Err("invalid workspace_id 'x', expected an integer".to_string())
    );
}

#[test]
fn optional_text_is_trimmed_or_absent() {
    assert_eq!(optional_text("  "), None);
    assert_eq!(optional_text(""), None);
    assert_eq!(optional_text(" e4 "), Some("e4".to_string()));
}

#[test]
fn width_must_be_in_range() {
    assert_eq!(parse_multipv("1"), Ok(1));
    assert_eq!(parse_multipv("10"), Ok(10));
    assert_eq!(
        parse_multipv("0"),
        Err("invalid multipv, expected an integer in range 1..=10".to_string())
    );
    assert_eq!(
        parse_multipv("11"),
        Err("invalid multipv, expected an integer in range 1..=10".to_string())
    );
    assert_eq!(
        parse_multipv("many"),
        Err("invalid multipv 'many', expected a non-negative integer".to_string())
    );
}

#[test]
fn analysis_options_default_and_override() {
    assert_eq!(
        parse_analyze_multipv_options(&args(&[])),
        Ok(AnalyzeOptions { depth: 18, multipv: 1 })
    );
    assert_eq!(
        parse_analyze_multipv_options(&args(&["--multipv", "4", "--depth", "22", "--depth", "9"])),
        Ok(AnalyzeOptions { depth: 9, multipv: 4 })
    );
    assert_eq!(parse_analyze_options(&args(&["--depth", "0"])), Ok(0));
    assert_eq!(parse_analyze_options(&args(&[])), Ok(18));
    assert_eq!(
        parse_analyze_options(&args(&["--depth"])),
        Err("missing value for --depth".to_string())
    );
    assert_eq!(
        parse_analyze_multipv_options(&args(&["--depth", "3", "--multipv"])),
        Err("missing value for --multipv".to_string())
    );
    assert_eq!(
        parse_analyze_multipv_options(&args(&["--depth", "3", "--width", "2"])),
        Err("unknown option '--width'".to_string())
    );
    assert_eq!(
        parse_analyze_multipv_options(&args(&["--multipv", "12", "--bogus"])),
        Err("invalid multipv, expected an integer in range 1..=10".to_string())
    );
    assert_eq!(
        parse_analyze_options(&args(&["--depth", "deep"])),
        Err("invalid depth 'deep', expected a non-negative integer".to_string())
    );
}

#[test]
fn search_options_fill_filter_and_page() {
    assert_eq!(
        parse_search_options(&args(&[])),
        Ok((GameFilter::default(), Pagination::default()))
    );
    let parsed = parse_search_options(&args(&[
        "--search-text", " carlsen ", "--result", "1/2-1/2", "--eco", "C84", "--event-or-site",
        "wijk", "--date-from", "2024.01.01", "--date-to", "2024.12.31", "--limit", "5",
        "--offset", "10", "--eco", "B01",
    ]));
    assert_eq!(
        parsed,
        Ok((
            GameFilter {
                search_text: Some(" carlsen ".to_string()),
                result: GameResultFilter::Draw,
                eco: Some("B01".to_string()),
                event_or_site: Some("wijk".to_string()),
                date_from: Some("2024.01.01".to_string()),
                date_to: Some("2024.12.31".to_string()),
            },
            Pagination { limit: 5, offset: 10 },
        ))
    );
}

#[test]
fn search_options_are_refused_with_a_reason() {
    for option in [
        "--search-text", "--result", "--eco", "--event-or-site", "--date-from", "--date-to",
        "--limit", "--offset",
    ] {
        assert_eq!(
            parse_search_options(&args(&["--eco", "C84", option])),
            Err(format!("missing value for {option}"))
        );
    }
    assert_eq!(
        parse_search_options(&args(&["--white", "Alice"])),
        Err("unknown option '--white'".to_string())
    );
    assert_eq!(
        parse_search_options(&args(&["--result", "win"])),
        Err("invalid result 'win', expected one of: any, 1-0, 0-1, 1/2-1/2".to_string())
    );
    assert_eq!(
        parse_search_options(&args(&["--limit", "-5"])),
        Err("invalid limit '-5', expected a non-negative integer".to_string())
    );
    assert_eq!(
        parse_search_options(&args(&["--offset", "ten", "--bogus"])),
        Err("invalid offset 'ten', expected a non-negative integer".to_string())
    );
}

#[test]
fn fields_hold_no_tabs_or_line_breaks() {
    assert_eq!(tsv_escape(None), "");
    assert_eq!(tsv_escape(Some("")), "");
    assert_eq!(tsv_escape(Some("plain text")), "plain text");
    assert_eq!(tsv_escape(Some("a\tb\nc\rd\r\n")), "a b c d  ");
}
