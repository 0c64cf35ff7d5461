use chess_prep::query::{
    build_where_clause, count_from_row, count_statement, normalized_filter_text, search_statement,
    validate_date_input, SqlValue,
};
use chess_prep::types::{GameFilter, GameResultFilter, Pagination, QueryError};

fn text(s: &str) -> SqlValue {
    SqlValue::Text(s.to_string())
}

#[test]
fn page_defaults_and_limits() {
    assert_eq!(Pagination::default(), Pagination { limit: 50, offset: 0 });
    assert_eq!(
        Pagination { limit: 0, offset: 7 }.normalized(),
        Pagination { limit: 50, offset: 7 }
    );
    assert_eq!(
        Pagination { limit: 1, offset: 0 }.normalized(),
        Pagination { limit: 1, offset: 0 }
    );
    assert_eq!(
        Pagination { limit: 500, offset: 3 }.normalized(),
        Pagination { limit: 500, offset: 3 }
    );
    assert_eq!(
        Pagination { limit: 501, offset: u32::MAX }.normalized(),
        Pagination { limit: 500, offset: u32::MAX }
    );
}

#[test]
fn filter_text_is_trimmed_or_absent() {
    assert_eq!(normalized_filter_text(&None), None);
    assert_eq!(normalized_filter_text(&Some(String::new())), None);
    assert_eq!(normalized_filter_text(&Some(" \t\n".to_string())), None);
    assert_eq!(
        normalized_filter_text(&Some("  Magnus  Carlsen \n".to_string())),
        Some("Magnus  Carlsen".to_string())
    );
}

#[test]
fn full_dates_only() {
    assert!(validate_date_input("date_from", "2024.01.01").is_ok());
    assert!(validate_date_input("date_from", "0000.00.00").is_ok());
    for bad in [
        "2024-01-01", "2024.1.1", "2024.01.011", "2024.01.0", "", "2024.??.??", "????.??.??",
        "2024.01.0a", "20240.1.01", " 2024.01.01", "２０２４.01.01",
    ] {
        match validate_date_input("date_to", bad) {
            Err(QueryError::InvalidDateFormat { field, value }) => {
                assert_eq!(field, "date_to");
                assert_eq!(value, bad);
            }
            other => panic!("unexpected result for {bad:?}: {other:?}"),
        }
    }
}

#[test]
fn empty_filter_gives_no_conditions() {
    let (clause, values) = build_where_clause(&GameFilter::default()).expect("clause");
    assert_eq!(clause, "");
    assert!(values.is_empty());
}

#[test]
fn every_field_gives_its_condition_in_order() {
    let filter = GameFilter {
        search_text: Some(" carlsen ".to_string()),
        result: GameResultFilter::Draw,
        eco: Some("c8".to_string()),
        event_or_site: Some("wijk".to_string()),
        date_from: Some("2024.01.01".to_string()),
        date_to: Some(" 2024.12.31".to_string()),
    };
    let (clause, values) = build_where_clause(&filter).expect("clause");
    assert_eq!(
        clause,
        " WHERE LOWER(COALESCE(white, '') || ' ' || COALESCE(black, '') || ' ' || COALESCE(event, '') || ' ' || COALESCE(site, '')) LIKE LOWER(?) AND result = ? AND LOWER(COALESCE(eco, '')) LIKE LOWER(?) AND LOWER(COALESCE(event, '') || ' ' || COALESCE(site, '')) LIKE LOWER(?) AND date GLOB '[0-9][0-9][0-9][0-9].[0-9][0-9].[0-9][0-9]' AND date >= ? AND date <= ?"
    );
    assert_eq!(
        values,
        vec![
            text("%carlsen%"),
            text("1/2-1/2"),
            text("%c8%"),
            text("%wijk%"),
            text("2024.01.01"),
            text("2024.12.31"),
        ]
    );
}

#[test]
fn results_have_their_stored_text() {
    for (result, stored) in [
        (GameResultFilter::WhiteWin, "1-0"),
        (GameResultFilter::BlackWin, "0-1"),
        (GameResultFilter::Draw, "1/2-1/2"),
    ] {
        let filter = GameFilter { result, ..GameFilter::default() };
        let (clause, values) = build_where_clause(&filter).expect("clause");
        assert_eq!(clause, " WHERE result = ?");
        assert_eq!(values, vec![text(stored)]);
    }
}

#[test]
fn one_date_bound_asks_for_full_dates() {
    let filter = GameFilter { date_to: Some("2024.12.31".to_string()), ..GameFilter::default() };
    let (clause, values) = build_where_clause(&filter).expect("clause");
    assert_eq!(
        clause,
        " WHERE date GLOB '[0-9][0-9][0-9][0-9].[0-9][0-9].[0-9][0-9]' AND date <= ?"
    );
    assert_eq!(values, vec![text("2024.12.31")]);
}

#[test]
fn invalid_date_format_returns_error() {
    let filter = GameFilter {
        date_from: Some("2024-01-01".to_string()),
        date_to: Some("also bad".to_string()),
        ..GameFilter::default()
    };
    match build_where_clause(&filter) {
        Err(QueryError::InvalidDateFormat { field, value }) => {
            assert_eq!(field, "date_from");
            assert_eq!(value, "2024-01-01");
        }
        other => panic!("invalid date should fail search: {other:?}"),
    }
    match count_statement(&filter) {
        Err(QueryError::InvalidDateFormat { field, .. }) => assert_eq!(field, "date_from"),
        other => panic!("invalid date should fail count: {other:?}"),
    }
    let filter = GameFilter {
        date_from: Some("2024.01.01".to_string()),
        date_to: Some("2024.13".to_string()),
        ..GameFilter::default()
    };
    match search_statement(&filter, Pagination::default()) {
        Err(QueryError::InvalidDateFormat { field, value }) => {
            assert_eq!(field, "date_to");
            assert_eq!(value, "2024.13");
        }
        other => panic!("invalid date should fail search: {other:?}"),
    }
}

#[test]
fn search_statement_ends_in_the_page() {
    let filter = GameFilter { eco: Some("C84".to_string()), ..GameFilter::default() };
    let (sql, values) =
        search_statement(&filter, Pagination { limit: 0, offset: 20 }).expect("statement");
    assert_eq!(
        sql,
        "SELECT rowid, event, site, date, white, black, result, eco FROM games WHERE LOWER(COALESCE(eco, '')) LIKE LOWER(?) ORDER BY date DESC, rowid DESC LIMIT ? OFFSET ?"
    );
    assert_eq!(values, vec![text("%C84%"), SqlValue::Integer(50), SqlValue::Integer(20)]);

    let (sql, values) = search_statement(&GameFilter::default(), Pagination { limit: 9999, offset: 0 })
        .expect("statement");
    assert_eq!(
        sql,
        "SELECT rowid, event, site, date, white, black, result, eco FROM games ORDER BY date DESC, rowid DESC LIMIT ? OFFSET ?"
    );
    assert_eq!(values, vec![SqlValue::Integer(500), SqlValue::Integer(0)]);
}

#[test]
fn count_statement_has_the_same_conditions() {
    let filter = GameFilter { result: GameResultFilter::BlackWin, ..GameFilter::default() };
    let (sql, values) = count_statement(&filter).expect("statement");
    assert_eq!(sql, "SELECT COUNT(*) FROM games WHERE result = ?");
    assert_eq!(values, vec![text("0-1")]);
    let (sql, values) = count_statement(&GameFilter::default()).expect("statement");
    assert_eq!(sql, "SELECT COUNT(*) FROM games");
    assert!(values.is_empty());
}

#[test]
fn negative_count_is_refused() {
    assert!(matches!(count_from_row(0), Ok(0)));
    assert!(matches!(count_from_row(i64::MAX), Ok(9223372036854775807)));
    assert!(matches!(count_from_row(-1), Err(QueryError::CountOverflow(-1))));
    assert!(matches!(count_from_row(i64::MIN), Err(QueryError::CountOverflow(i64::MIN))));
}
