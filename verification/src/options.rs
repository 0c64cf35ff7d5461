//! Reading the options of a command line: the filter and page of a search,
//! the depth and width of an analysis, and single numbers and results.

use vstd::prelude::*;
use crate::aggregate::MAX_MULTIPV;
use crate::number::{parsed_i64, parsed_u32};
use crate::query::{filter_text, normalized_filter_text, FilterRecord};
use crate::text::{chars_of, copy_string, optional_view, push_text, same_text, texts};
use crate::types::{GameFilter, GameResultFilter, Pagination, DEFAULT_LIMIT};

verus! {

/// The result that a word names.
pub open spec fn result_named(value: Seq<char>) -> Option<GameResultFilter> {
    if value == "any"@ {
        Some(GameResultFilter::Any)
    } else if value == "1-0"@ {
        Some(GameResultFilter::WhiteWin)
    } else if value == "0-1"@ {
        Some(GameResultFilter::BlackWin)
    } else if value == "1/2-1/2"@ {
        Some(GameResultFilter::Draw)
    } else {
        None
    }
}

/// The error text for a word that names no result.
pub open spec fn invalid_result(value: Seq<char>) -> Seq<char> {
    "invalid result '"@ + value + "', expected one of: any, 1-0, 0-1, 1/2-1/2"@
}

/// Reads a result.
pub fn parse_result(value: &str) -> (r: Result<GameResultFilter, String>)
    ensures
        match r {
            Ok(result) => result_named(value@) == Some(result),
            Err(text) => result_named(value@) is None && text@ == invalid_result(value@),
        },
{
    if same_text(value, "any") {
        Ok(GameResultFilter::Any)
    } else if same_text(value, "1-0") {
        Ok(GameResultFilter::WhiteWin)
    } else if same_text(value, "0-1") {
        Ok(GameResultFilter::BlackWin)
    } else if same_text(value, "1/2-1/2") {
        Ok(GameResultFilter::Draw)
    } else {
        let mut text = String::new();
        push_text(&mut text, "invalid result '");
        push_text(&mut text, value);
        push_text(&mut text, "', expected one of: any, 1-0, 0-1, 1/2-1/2");
        Err(text)
    }
}

/// The error text for a word that is no unsigned number.
pub open spec fn invalid_unsigned(name: Seq<char>, value: Seq<char>) -> Seq<char> {
    "invalid "@ + name + " '"@ + value + "', expected a non-negative integer"@
}

/// The error text for a word that is no number.
pub open spec fn invalid_integer(name: Seq<char>, value: Seq<char>) -> Seq<char> {
    "invalid "@ + name + " '"@ + value + "', expected an integer"@
}

/// The number that the word `value` spells as the option `name`.
pub open spec fn unsigned_named(name: Seq<char>, value: Seq<char>) -> Result<u32, Seq<char>> {
    match parsed_u32(value) {
        Some(n) => Ok(n),
        None => Err(invalid_unsigned(name, value)),
    }
}

/// Whether a result is what a reading came to.
pub open spec fn read_as<T>(r: Result<T, String>, outcome: Result<T, Seq<char>>) -> bool {
    match r {
        Ok(v) => outcome == Ok::<T, Seq<char>>(v),
        Err(text) => outcome == Err::<T, Seq<char>>(text@),
    }
}

/// Reads an unsigned number.
pub fn parse_u32(name: &str, value: &str) -> (r: Result<u32, String>)
    ensures
        read_as(r, unsigned_named(name@, value@)),
{
    let chars = chars_of(value);
    match crate::number::parse_u32(&chars) {
        Some(n) => Ok(n),
        None => {
            let mut text = String::new();
            push_text(&mut text, "invalid ");
            push_text(&mut text, name);
            push_text(&mut text, " '");
            push_text(&mut text, value);
            push_text(&mut text, "', expected a non-negative integer");
            Err(text)
        },
    }
}

/// Reads a number.
pub fn parse_i64(name: &str, value: &str) -> (r: Result<i64, String>)
    ensures
        match r {
            Ok(n) => parsed_i64(value@) == Some(n),
            Err(text) => parsed_i64(value@) is None && text@ == invalid_integer(name@, value@),
        },
{
    let chars = chars_of(value);
    match crate::number::parse_i64(&chars) {
        Some(n) => Ok(n),
        None => {
            let mut text = String::new();
            push_text(&mut text, "invalid ");
            push_text(&mut text, name);
            push_text(&mut text, " '");
            push_text(&mut text, value);
            push_text(&mut text, "', expected an integer");
            Err(text)
        },
    }
}

/// A text, trimmed, unless that leaves nothing.
pub fn optional_text(value: &str) -> (r: Option<String>)
    ensures
        optional_view(r) == filter_text(Some(value@)),
{
    let owned = Some(value.to_owned());
    normalized_filter_text(&owned)
}

/// The width that the word `value` spells: a number within
/// `1..=MAX_MULTIPV`.
pub open spec fn multipv_named(value: Seq<char>) -> Result<u32, Seq<char>> {
    match unsigned_named("multipv"@, value) {
        Ok(n) => if n == 0 || n > MAX_MULTIPV {
            Err("invalid multipv, expected an integer in range 1..=10"@)
        } else {
            Ok(n)
        },
        Err(text) => Err(text),
    }
}

/// Reads a width.
pub fn parse_multipv(value: &str) -> (r: Result<u32, String>)
    ensures
        read_as(r, multipv_named(value@)),
{
    match parse_u32("multipv", value) {
        Ok(n) => {
            if n == 0 || n > MAX_MULTIPV {
                Err("invalid multipv, expected an integer in range 1..=10".to_owned())
            } else {
                Ok(n)
            }
        },
        Err(text) => Err(text),
    }
}

/// The error text for an option without its value.
pub open spec fn missing_value(option: Seq<char>) -> Seq<char> {
    "missing value for "@ + option
}

/// The error text for a word that is no option.
pub open spec fn unknown_option(word: Seq<char>) -> Seq<char> {
    "unknown option '"@ + word + "'"@
}

fn missing_value_text(option: &str) -> (text: String)
    ensures
        text@ == missing_value(option@),
{
    let mut text = String::new();
    push_text(&mut text, "missing value for ");
    push_text(&mut text, option);
    text
}

fn unknown_option_text(word: &str) -> (text: String)
    ensures
        text@ == unknown_option(word@),
{
    let mut text = String::new();
    push_text(&mut text, "unknown option '");
    push_text(&mut text, word);
    push_text(&mut text, "'");
    text
}

/// The depth and width of an analysis.
#[derive(Debug, Clone, Copy, PartialEq, Eq)]
pub struct AnalyzeOptions {
    pub depth: u32,
    pub multipv: u32,
}

/// The options of an analysis, read from the words `args[at..]` into what
/// was read so far. An option takes the word after it.
pub open spec fn analyze_options_from(args: Seq<Seq<char>>, at: int, so_far: AnalyzeOptions)
    -> Result<AnalyzeOptions, Seq<char>>
    decreases args.len() - at,
{
    if at < 0 || at >= args.len() {
        Ok(so_far)
    } else if args[at] == "--depth"@ {
        if at + 1 >= args.len() {
            Err(missing_value(args[at]))
        } else {
            match unsigned_named("depth"@, args[at + 1]) {
                Ok(depth) => analyze_options_from(
                    args,
                    at + 2,
                    AnalyzeOptions { depth, ..so_far },
                ),
                Err(text) => Err(text),
            }
        }
    } else if args[at] == "--multipv"@ {
        if at + 1 >= args.len() {
            Err(missing_value(args[at]))
        } else {
            match multipv_named(args[at + 1]) {
                Ok(multipv) => analyze_options_from(
                    args,
                    at + 2,
                    AnalyzeOptions { multipv, ..so_far },
                ),
                Err(text) => Err(text),
            }
        }
    } else {
        Err(unknown_option(args[at]))
    }
}

/// The options of an analysis where none is given: depth 18, one line.
pub open spec fn analyze_defaults() -> AnalyzeOptions {
    AnalyzeOptions { depth: 18, multipv: 1 }
}

/// Reads the options `--depth` and `--multipv` of an analysis.
pub fn parse_analyze_multipv_options(args: &Vec<String>) -> (r: Result<AnalyzeOptions, String>)
    ensures
        read_as(r, analyze_options_from(texts(args@), 0, analyze_defaults())),
{
    let mut options = AnalyzeOptions { depth: 18, multipv: 1 };
    let mut at: usize = 0;
    let ghost all = texts(args@);
    while at < args.len()
        invariant
            at <= args.len(),
            all == texts(args@),
            analyze_options_from(all, at as int, options) == analyze_options_from(
                all,
                0,
                analyze_defaults(),
            ),
        decreases args.len() - at,
    {
        let word = args[at].as_str();
        assert(all[at as int] == word@);
        let is_depth = same_text(word, "--depth");
        let is_multipv = same_text(word, "--multipv");
        if !is_depth && !is_multipv {
            return Err(unknown_option_text(word));
        }
        if args.len() - at < 2 {
            return Err(missing_value_text(word));
        }
        assert(all[at + 1] == args@[at + 1]@);
        let value = args[at + 1].as_str();
        if is_depth {
            match parse_u32("depth", value) {
                Ok(depth) => {
                    options.depth = depth;
                },
                Err(text) => {
                    return Err(text);
                },
            }
        } else {
            match parse_multipv(value) {
                Ok(multipv) => {
                    options.multipv = multipv;
                },
                Err(text) => {
                    return Err(text);
                },
            }
        }
        at += 2;
    }
    Ok(options)
}

/// Reads the depth among the options of an analysis.
pub fn parse_analyze_options(args: &Vec<String>) -> (r: Result<u32, String>)
    ensures
        match r {
            Ok(depth) => analyze_options_from(texts(args@), 0, analyze_defaults()) matches Ok(o)
                && o.depth == depth,
            Err(text) => analyze_options_from(texts(args@), 0, analyze_defaults()) == Err::<
                AnalyzeOptions,
                Seq<char>,
            >(text@),
        },
{
    match parse_analyze_multipv_options(args) {
        Ok(options) => Ok(options.depth),
        Err(text) => Err(text),
    }
}

/// The filter and the page of a search.
pub struct SearchOptions {
    pub filter: FilterRecord,
    pub page: Pagination,
}

/// The options of a search where none is given: no condition, and the
/// first page of the default size.
pub open spec fn search_defaults() -> SearchOptions {
    SearchOptions {
        filter: FilterRecord {
            search_text: None,
            result: GameResultFilter::Any,
            eco: None,
            event_or_site: None,
            date_from: None,
            date_to: None,
        },
        page: Pagination { limit: DEFAULT_LIMIT, offset: 0 },
    }
}

/// Whether a word is an option of a search.
pub open spec fn is_search_option(word: Seq<char>) -> bool {
    ||| word == "--search-text"@
    ||| word == "--result"@
    ||| word == "--eco"@
    ||| word == "--event-or-site"@
    ||| word == "--date-from"@
    ||| word == "--date-to"@
    ||| word == "--limit"@
    ||| word == "--offset"@
}

/// The options `o` after the option `word` with the value `value`.
pub open spec fn with_search_option(o: SearchOptions, word: Seq<char>, value: Seq<char>) -> Result<
    SearchOptions,
    Seq<char>,
> {
    if word == "--search-text"@ {
        Ok(SearchOptions { filter: FilterRecord { search_text: Some(value), ..o.filter }, ..o })
    } else if word == "--result"@ {
        match result_named(value) {
            Some(result) => Ok(SearchOptions { filter: FilterRecord { result, ..o.filter }, ..o }),
            None => Err(invalid_result(value)),
        }
    } else if word == "--eco"@ {
        Ok(SearchOptions { filter: FilterRecord { eco: Some(value), ..o.filter }, ..o })
    } else if word == "--event-or-site"@ {
        Ok(SearchOptions { filter: FilterRecord { event_or_site: Some(value), ..o.filter }, ..o })
    } else if word == "--date-from"@ {
        Ok(SearchOptions { filter: FilterRecord { date_from: Some(value), ..o.filter }, ..o })
    } else if word == "--date-to"@ {
        Ok(SearchOptions { filter: FilterRecord { date_to: Some(value), ..o.filter }, ..o })
    } else if word == "--limit"@ {
        match unsigned_named("limit"@, value) {
            Ok(limit) => Ok(SearchOptions { page: Pagination { limit, ..o.page }, ..o }),
            Err(text) => Err(text),
        }
    } else {
        match unsigned_named("offset"@, value) {
            Ok(offset) => Ok(SearchOptions { page: Pagination { offset, ..o.page }, ..o }),
            Err(text) => Err(text),
        }
    }
}

/// The options of a search, read from the words `args[at..]` into what was
/// read so far. An option takes the word after it.
pub open spec fn search_options_from(args: Seq<Seq<char>>, at: int, so_far: SearchOptions)
    -> Result<SearchOptions, Seq<char>>
    decreases args.len() - at,
{
    if at < 0 || at >= args.len() {
        Ok(so_far)
    } else if !is_search_option(args[at]) {
        Err(unknown_option(args[at]))
    } else if at + 1 >= args.len() {
        Err(missing_value(args[at]))
    } else {
        match with_search_option(so_far, args[at], args[at + 1]) {
            Ok(next) => search_options_from(args, at + 2, next),
            Err(text) => Err(text),
        }
    }
}

/// Reads the options of a search: `--search-text`, `--result`, `--eco`,
/// `--event-or-site`, `--date-from`, `--date-to`, `--limit` and
/// `--offset`.
pub fn parse_search_options(args: &Vec<String>) -> (r: Result<(GameFilter, Pagination), String>)
    ensures
        match r {
            Ok((filter, page)) => search_options_from(texts(args@), 0, search_defaults()) == Ok::<
                SearchOptions,
                Seq<char>,
            >(SearchOptions { filter: filter@, page }),
            Err(text) => search_options_from(texts(args@), 0, search_defaults()) == Err::<
                SearchOptions,
                Seq<char>,
            >(text@),
        },
{
    let mut filter = GameFilter {
        search_text: None,
        result: GameResultFilter::Any,
        eco: None,
        event_or_site: None,
        date_from: None,
        date_to: None,
    };
    let mut page = Pagination { limit: DEFAULT_LIMIT, offset: 0 };
    let mut at: usize = 0;
    let ghost all = texts(args@);
    while at < args.len()
        invariant
            at <= args.len(),
            all == texts(args@),
            search_options_from(all, at as int, (SearchOptions { filter: filter@, page }))
                == search_options_from(all, 0, search_defaults()),
        decreases args.len() - at,
    {
        let word = args[at].as_str();
        assert(all[at as int] == word@);
        let ghost before = SearchOptions { filter: filter@, page };
        let is_search_text = same_text(word, "--search-text");
        let is_result = same_text(word, "--result");
        let is_eco = same_text(word, "--eco");
        let is_event_or_site = same_text(word, "--event-or-site");
        let is_date_from = same_text(word, "--date-from");
        let is_date_to = same_text(word, "--date-to");
        let is_limit = same_text(word, "--limit");
        let is_offset = same_text(word, "--offset");
        if !(is_search_text || is_result || is_eco || is_event_or_site || is_date_from || is_date_to
            || is_limit || is_offset) {
            return Err(unknown_option_text(word));
        }
        if args.len() - at < 2 {
            return Err(missing_value_text(word));
        }
        assert(all[at + 1] == args@[at + 1]@);
        let value = &args[at + 1];
        if is_search_text {
            filter.search_text = Some(copy_string(value));
        } else if is_result {
            match parse_result(value.as_str()) {
                Ok(result) => {
                    filter.result = result;
                },
                Err(text) => {
                    return Err(text);
                },
            }
        } else if is_eco {
            filter.eco = Some(copy_string(value));
        } else if is_event_or_site {
            filter.event_or_site = Some(copy_string(value));
        } else if is_date_from {
            filter.date_from = Some(copy_string(value));
        } else if is_date_to {
            filter.date_to = Some(copy_string(value));
        } else if is_limit {
            match parse_u32("limit", value.as_str()) {
                Ok(limit) => {
                    page.limit = limit;
                },
                Err(text) => {
                    return Err(text);
                },
            }
        } else {
            match parse_u32("offset", value.as_str()) {
                Ok(offset) => {
                    page.offset = offset;
                },
                Err(text) => {
                    return Err(text);
                },
            }
        }
        assert(with_search_option(before, all[at as int], all[at + 1]) == Ok::<
            SearchOptions,
            Seq<char>,
        >(SearchOptions { filter: filter@, page }));
        at += 2;
    }
    Ok((filter, page))
}

/// A character as it stands in a tab-separated field: a space in place of
/// a tab or a line break.
pub open spec fn field_char(c: char) -> char {
    if c == '\t' || c == '\n' || c == '\r' {
        ' '
    } else {
        c
    }
}

/// A text as it stands in a tab-separated field.
pub open spec fn field_text(value: Option<Seq<char>>) -> Seq<char> {
    match value {
        Some(text) => text.map_values(|c: char| field_char(c)),
        None => Seq::empty(),
    }
}

/// Makes a text fit for a tab-separated field; no text gives the empty
/// field.
pub fn tsv_escape(value: Option<&str>) -> (out: String)
    ensures
        out@ == field_text(
            match value {
                Some(text) => Some(text@),
                None => None,
            },
        ),
{
    let mut out = String::new();
    match value {
        Some(text) => {
            let chars = chars_of(text);
            let mut i: usize = 0;
            let ghost goal = text@.map_values(|c: char| field_char(c));
            while i < chars.len()
                invariant
                    i <= chars.len(),
                    chars@ == text@,
                    goal == text@.map_values(|c: char| field_char(c)),
                    out@ == goal.take(i as int),
                decreases chars.len() - i,
            {
                let c = chars[i];
                let shown = if c == '\t' || c == '\n' || c == '\r' {
                    ' '
                } else {
                    c
                };
                assert(goal.take(i + 1) == goal.take(i as int).push(shown));
                out.push(shown);
                i += 1;
            }
            assert(goal.take(chars.len() as int) == goal);
        },
        None => {},
    }
    out
}

} // verus!
