//! What a search of the game database asks: the conditions that a filter
//! amounts to, as the text of a statement and the values bound to it.

use vstd::prelude::*;
use crate::number::{is_digit, is_digit_char};
use crate::text::{chars_of, optional_view, push_text, string_from, texts, trim, trimmed};
use crate::types::{page_used, GameFilter, GameResultFilter, Pagination, QueryError};

verus! {

/// A value bound to a statement.
#[derive(Debug, Clone, PartialEq, Eq)]
pub enum SqlValue {
    Text(String),
    Integer(i64),
}

/// The mathematical value of a `SqlValue`.
pub enum BoundValue {
    Text(Seq<char>),
    Integer(i64),
}

impl View for SqlValue {
    type V = BoundValue;

    open spec fn view(&self) -> BoundValue {
        match self {
            SqlValue::Text(t) => BoundValue::Text(t@),
            SqlValue::Integer(n) => BoundValue::Integer(*n),
        }
    }
}

/// The views of a sequence of values.
pub open spec fn bound_values(v: Seq<SqlValue>) -> Seq<BoundValue> {
    v.map_values(|x: SqlValue| x@)
}

/// The mathematical value of a `GameFilter`.
pub struct FilterRecord {
    pub search_text: Option<Seq<char>>,
    pub result: GameResultFilter,
    pub eco: Option<Seq<char>>,
    pub event_or_site: Option<Seq<char>>,
    pub date_from: Option<Seq<char>>,
    pub date_to: Option<Seq<char>>,
}

impl View for GameFilter {
    type V = FilterRecord;

    open spec fn view(&self) -> FilterRecord {
        FilterRecord {
            search_text: optional_view(self.search_text),
            result: self.result,
            eco: optional_view(self.eco),
            event_or_site: optional_view(self.event_or_site),
            date_from: optional_view(self.date_from),
            date_to: optional_view(self.date_to),
        }
    }
}

/// What a filter field asks for: its text, trimmed, unless that is empty.
pub open spec fn filter_text(input: Option<Seq<char>>) -> Option<Seq<char>> {
    match input {
        Some(raw) => if trimmed(raw).len() > 0 {
            Some(trimmed(raw))
        } else {
            None
        },
        None => None,
    }
}

/// Reads a filter field.
pub fn normalized_filter_text(input: &Option<String>) -> (r: Option<String>)
    ensures
        optional_view(r) == filter_text(optional_view(*input)),
{
    match input {
        Some(raw) => {
            let chars = chars_of(raw.as_str());
            let t = trim(&chars);
            if t.len() == 0 {
                None
            } else {
                Some(string_from(&t))
            }
        },
        None => None,
    }
}

/// A full date: four digits, a dot, two digits, a dot, two digits.
pub open spec fn is_full_date(s: Seq<char>) -> bool {
    &&& s.len() == 10
    &&& s[4] == '.'
    &&& s[7] == '.'
    &&& forall|i: int| 0 <= i < 10 && i != 4 && i != 7 ==> is_digit(#[trigger] s[i])
}

/// Accepts a full date and nothing else. The error names the field and
/// carries the text that was refused.
pub fn validate_date_input(field: &'static str, value: &str) -> (r: Result<(), QueryError>)
    ensures
        match r {
            Ok(_) => is_full_date(value@),
            Err(QueryError::InvalidDateFormat { field: f, value: v }) => !is_full_date(value@) && f
                == field && v@ == value@,
            Err(_) => false,
        },
{
    let chars = chars_of(value);
    let mut valid = chars.len() == 10 && chars[4] == '.' && chars[7] == '.';
    if valid {
        let mut i: usize = 0;
        while i < 10
            invariant
                i <= 10,
                chars.len() == 10,
                chars@ == value@,
                valid ==> forall|k: int|
                    0 <= k < i && k != 4 && k != 7 ==> is_digit(#[trigger] chars@[k]),
                !valid ==> !is_full_date(value@),
            decreases 10 - i,
        {
            if i != 4 && i != 7 && !is_digit_char(chars[i]) {
                valid = false;
            }
            i += 1;
        }
    }
    if valid {
        Ok(())
    } else {
        Err(QueryError::InvalidDateFormat { field, value: value.to_owned() })
    }
}

/// The conditions of a statement and the values bound to them, in order.
pub struct WhereParts {
    pub clauses: Seq<Seq<char>>,
    pub values: Seq<BoundValue>,
}

/// `parts` and one more condition with the text bound to it.
pub open spec fn with_match(parts: WhereParts, clause: Seq<char>, value: Seq<char>) -> WhereParts {
    WhereParts {
        clauses: parts.clauses.push(clause),
        values: parts.values.push(BoundValue::Text(value)),
    }
}

/// `text` between two wildcards: the pattern of "contains `text`".
pub open spec fn wildcard(text: Seq<char>) -> Seq<char> {
    "%"@ + text + "%"@
}

pub open spec fn search_text_clause() -> Seq<char> {
    "LOWER(COALESCE(white, '') || ' ' || COALESCE(black, '') || ' ' || COALESCE(event, '') || ' ' || COALESCE(site, '')) LIKE LOWER(?)"@
}

pub open spec fn eco_clause() -> Seq<char> {
    "LOWER(COALESCE(eco, '')) LIKE LOWER(?)"@
}

pub open spec fn event_or_site_clause() -> Seq<char> {
    "LOWER(COALESCE(event, '') || ' ' || COALESCE(site, '')) LIKE LOWER(?)"@
}

pub open spec fn full_date_clause() -> Seq<char> {
    "date GLOB '[0-9][0-9][0-9][0-9].[0-9][0-9].[0-9][0-9]'"@
}

/// The text that stands for a result in the database, `None` for any.
pub open spec fn result_text(result: GameResultFilter) -> Option<Seq<char>> {
    match result {
        GameResultFilter::Any => None,
        GameResultFilter::WhiteWin => Some("1-0"@),
        GameResultFilter::BlackWin => Some("0-1"@),
        GameResultFilter::Draw => Some("1/2-1/2"@),
    }
}

/// The conditions that a filter's search text, result, opening code and
/// event or site amount to.
pub open spec fn field_parts(f: FilterRecord) -> WhereParts {
    let nothing = WhereParts { clauses: Seq::empty(), values: Seq::empty() };
    let by_text = match filter_text(f.search_text) {
        Some(t) => with_match(nothing, search_text_clause(), wildcard(t)),
        None => nothing,
    };
    let by_result = match result_text(f.result) {
        Some(t) => with_match(by_text, "result = ?"@, t),
        None => by_text,
    };
    let by_eco = match filter_text(f.eco) {
        Some(t) => with_match(by_result, eco_clause(), wildcard(t)),
        None => by_result,
    };
    match filter_text(f.event_or_site) {
        Some(t) => with_match(by_eco, event_or_site_clause(), wildcard(t)),
        None => by_eco,
    }
}

/// All conditions of a filter: those of its fields, then, where a date
/// bounds the search, that the game's date is a full date, and the bounds.
pub open spec fn filter_parts(f: FilterRecord) -> WhereParts {
    let by_fields = field_parts(f);
    let from = filter_text(f.date_from);
    let to = filter_text(f.date_to);
    let dated = if from is Some || to is Some {
        WhereParts {
            clauses: by_fields.clauses.push(full_date_clause()),
            values: by_fields.values,
        }
    } else {
        by_fields
    };
    let from_date = match from {
        Some(t) => with_match(dated, "date >= ?"@, t),
        None => dated,
    };
    match to {
        Some(t) => with_match(from_date, "date <= ?"@, t),
        None => from_date,
    }
}

/// The clauses, joined by `AND`.
pub open spec fn conjunction(clauses: Seq<Seq<char>>) -> Seq<char>
    decreases clauses.len(),
{
    if clauses.len() == 0 {
        Seq::empty()
    } else if clauses.len() == 1 {
        clauses[0]
    } else {
        conjunction(clauses.drop_last()) + " AND "@ + clauses.last()
    }
}

/// The `WHERE` part of a statement: empty without a condition.
pub open spec fn where_text(clauses: Seq<Seq<char>>) -> Seq<char> {
    if clauses.len() == 0 {
        Seq::empty()
    } else {
        " WHERE "@ + conjunction(clauses)
    }
}

/// A date bound that is no full date: the field's name and its text.
pub struct DateFault {
    pub field: Seq<char>,
    pub value: Seq<char>,
}

/// The first date bound of a filter that is no full date, the lower bound
/// before the upper one.
pub open spec fn date_fault(f: FilterRecord) -> Option<DateFault> {
    match filter_text(f.date_from) {
        Some(t) if !is_full_date(t) => Some(DateFault { field: "date_from"@, value: t }),
        _ => match filter_text(f.date_to) {
            Some(t) if !is_full_date(t) => Some(DateFault { field: "date_to"@, value: t }),
            _ => None,
        },
    }
}

/// Whether a result is the `WHERE` part and the values of the filter `f`,
/// or the date fault that `f` has.
pub open spec fn where_result_is(r: Result<(String, Vec<SqlValue>), QueryError>, f: FilterRecord)
    -> bool {
    match r {
        Ok((text, values)) => date_fault(f) is None && text@ == where_text(filter_parts(f).clauses)
            && bound_values(values@) == filter_parts(f).values,
        Err(QueryError::InvalidDateFormat { field, value }) => date_fault(f) == Some(
            DateFault { field: field@, value: value@ },
        ),
        Err(_) => false,
    }
}

fn push_match(clauses: &mut Vec<String>, values: &mut Vec<SqlValue>, clause: &str, value: String)
    ensures
        texts(final(clauses)@) == texts(old(clauses)@).push(clause@),
        bound_values(final(values)@) == bound_values(old(values)@).push(BoundValue::Text(value@)),
{
    let c = clause.to_owned();
    let v = SqlValue::Text(value);
    assert(texts(clauses@.push(c)) == texts(clauses@).push(c@));
    assert(bound_values(values@.push(v)) == bound_values(values@).push(v@));
    clauses.push(c);
    values.push(v);
}

fn wildcard_text(text: &str) -> (s: String)
    ensures
        s@ == wildcard(text@),
{
    let mut s = String::new();
    push_text(&mut s, "%");
    push_text(&mut s, text);
    push_text(&mut s, "%");
    s
}

fn join_clauses(clauses: &Vec<String>) -> (s: String)
    ensures
        s@ == where_text(texts(clauses@)),
{
    let mut s = String::new();
    if clauses.len() == 0 {
        return s;
    }
    push_text(&mut s, " WHERE ");
    push_text(&mut s, clauses[0].as_str());
    let ghost all = texts(clauses@);
    assert(all.take(1) == seq![clauses@[0]@]);
    let mut i: usize = 1;
    while i < clauses.len()
        invariant
            1 <= i <= clauses.len(),
            all == texts(clauses@),
            s@ == " WHERE "@ + conjunction(all.take(i as int)),
        decreases clauses.len() - i,
    {
        push_text(&mut s, " AND ");
        push_text(&mut s, clauses[i].as_str());
        proof {
            let now = all.take(i + 1);
            assert(now.drop_last() == all.take(i as int));
            assert(now.last() == clauses@[i as int]@);
            assert(" WHERE "@ + conjunction(all.take(i as int)) + " AND "@ + clauses@[i as int]@
                == " WHERE "@ + (conjunction(all.take(i as int)) + " AND "@ + clauses@[i as int]@));
        }
        i += 1;
    }
    assert(all.take(clauses.len() as int) == all);
    s
}

/// Builds the `WHERE` part of a statement for a filter, and the values
/// bound to it. A date bound that is no full date is refused, the lower
/// bound before the upper one.
pub fn build_where_clause(filter: &GameFilter) -> (r: Result<(String, Vec<SqlValue>), QueryError>)
    ensures
        where_result_is(r, filter@),
{
    let mut clauses: Vec<String> = Vec::new();
    let mut values: Vec<SqlValue> = Vec::new();
    assert(texts(clauses@) == Seq::<Seq<char>>::empty());
    assert(bound_values(values@) == Seq::<BoundValue>::empty());

    match normalized_filter_text(&filter.search_text) {
        Some(t) => {
            push_match(
                &mut clauses,
                &mut values,
                "LOWER(COALESCE(white, '') || ' ' || COALESCE(black, '') || ' ' || COALESCE(event, '') || ' ' || COALESCE(site, '')) LIKE LOWER(?)",
                wildcard_text(t.as_str()),
            );
        },
        None => {},
    }
    match filter.result {
        GameResultFilter::Any => {},
        GameResultFilter::WhiteWin => {
            push_match(&mut clauses, &mut values, "result = ?", "1-0".to_owned());
        },
        GameResultFilter::BlackWin => {
            push_match(&mut clauses, &mut values, "result = ?", "0-1".to_owned());
        },
        GameResultFilter::Draw => {
            push_match(&mut clauses, &mut values, "result = ?", "1/2-1/2".to_owned());
        },
    }
    match normalized_filter_text(&filter.eco) {
        Some(t) => {
            push_match(
                &mut clauses,
                &mut values,
                "LOWER(COALESCE(eco, '')) LIKE LOWER(?)",
                wildcard_text(t.as_str()),
            );
        },
        None => {},
    }
    match normalized_filter_text(&filter.event_or_site) {
        Some(t) => {
            push_match(
                &mut clauses,
                &mut values,
                "LOWER(COALESCE(event, '') || ' ' || COALESCE(site, '')) LIKE LOWER(?)",
                wildcard_text(t.as_str()),
            );
        },
        None => {},
    }
    assert(texts(clauses@) == field_parts(filter@).clauses);
    assert(bound_values(values@) == field_parts(filter@).values);

    let date_from = normalized_filter_text(&filter.date_from);
    let date_to = normalized_filter_text(&filter.date_to);
    if date_from.is_some() || date_to.is_some() {
        let c = "date GLOB '[0-9][0-9][0-9][0-9].[0-9][0-9].[0-9][0-9]'".to_owned();
        assert(texts(clauses@.push(c)) == texts(clauses@).push(c@));
        clauses.push(c);
    }
    match date_from {
        Some(t) => {
            match validate_date_input("date_from", t.as_str()) {
                Ok(_) => {},
                Err(e) => {
                    return Err(e);
                },
            }
            push_match(&mut clauses, &mut values, "date >= ?", t);
        },
        None => {},
    }
    match date_to {
        Some(t) => {
            match validate_date_input("date_to", t.as_str()) {
                Ok(_) => {},
                Err(e) => {
                    return Err(e);
                },
            }
            push_match(&mut clauses, &mut values, "date <= ?", t);
        },
        None => {},
    }
    let text = join_clauses(&clauses);
    Ok((text, values))
}

/// The text of the statement that selects the games of a page.
pub open spec fn search_text_of(clauses: Seq<Seq<char>>) -> Seq<char> {
    "SELECT rowid, event, site, date, white, black, result, eco FROM games"@ + where_text(clauses)
        + " ORDER BY date DESC, rowid DESC LIMIT ? OFFSET ?"@
}

/// The text of the statement that counts the games.
pub open spec fn count_text_of(clauses: Seq<Seq<char>>) -> Seq<char> {
    "SELECT COUNT(*) FROM games"@ + where_text(clauses)
}

/// The statement that selects the games that a filter admits, newest
/// first, one page of them: its text, and its values, which end in the
/// page's size and its offset.
pub fn search_statement(filter: &GameFilter, page: Pagination) -> (r: Result<
    (String, Vec<SqlValue>),
    QueryError,
>)
    ensures
        match r {
            Ok((text, values)) => date_fault(filter@) is None && text@ == search_text_of(
                filter_parts(filter@).clauses,
            ) && bound_values(values@) == filter_parts(filter@).values.push(
                BoundValue::Integer(page_used(page).limit as i64),
            ).push(BoundValue::Integer(page.offset as i64)),
            Err(QueryError::InvalidDateFormat { field, value }) => date_fault(filter@) == Some(
                DateFault { field: field@, value: value@ },
            ),
            Err(_) => false,
        },
{
    match build_where_clause(filter) {
        Ok((clause, values)) => {
            let mut values = values;
            let page = page.normalized();
            let mut text = String::new();
            push_text(
                &mut text,
                "SELECT rowid, event, site, date, white, black, result, eco FROM games",
            );
            push_text(&mut text, clause.as_str());
            push_text(&mut text, " ORDER BY date DESC, rowid DESC LIMIT ? OFFSET ?");
            let limit = SqlValue::Integer(page.limit as i64);
            let offset = SqlValue::Integer(page.offset as i64);
            proof {
                assert(bound_values(values@.push(limit)) == bound_values(values@).push(limit@));
                assert(bound_values(values@.push(limit).push(offset)) == bound_values(
                    values@.push(limit),
                ).push(offset@));
            }
            values.push(limit);
            values.push(offset);
            Ok((text, values))
        },
        Err(e) => Err(e),
    }
}

/// The statement that counts the games that a filter admits: its text and
/// its values.
pub fn count_statement(filter: &GameFilter) -> (r: Result<(String, Vec<SqlValue>), QueryError>)
    ensures
        match r {
            Ok((text, values)) => date_fault(filter@) is None && text@ == count_text_of(
                filter_parts(filter@).clauses,
            ) && bound_values(values@) == filter_parts(filter@).values,
            Err(QueryError::InvalidDateFormat { field, value }) => date_fault(filter@) == Some(
                DateFault { field: field@, value: value@ },
            ),
            Err(_) => false,
        },
{
    match build_where_clause(filter) {
        Ok((clause, values)) => {
            let mut text = String::new();
            push_text(&mut text, "SELECT COUNT(*) FROM games");
            push_text(&mut text, clause.as_str());
            Ok((text, values))
        },
        Err(e) => Err(e),
    }
}

/// The number of games that a count came to. A negative count is refused
/// as `CountOverflow` with the count.
pub fn count_from_row(count: i64) -> (r: Result<u64, QueryError>)
    ensures
        match r {
            Ok(n) => count >= 0 && n == count,
            Err(QueryError::CountOverflow(c)) => count < 0 && c == count,
            Err(_) => false,
        },
{
    if count >= 0 {
        Ok(count as u64)
    } else {
        Err(QueryError::CountOverflow(count))
    }
}

} // verus!
