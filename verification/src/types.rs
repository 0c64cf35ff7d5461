//! The data types that the library's functions take and return.

use vstd::prelude::*;
use crate::text::{optional_view, texts};

verus! {

/// `std::io::Error`: the error of a read or a write. The library carries
/// such a value in its own errors and never looks into it.
#[verifier::external_type_specification]
#[verifier::external_body]
pub struct ExIoError(std::io::Error);

/// `rusqlite::Error`: the error of a database call. The library carries
/// such a value in its own errors and never looks into it.
#[verifier::external_type_specification]
#[verifier::external_body]
pub struct ExSqlError(rusqlite::Error);

/// A move that was played on a position: its standard notation, its
/// coordinate notation, and the position that it leads to.
#[derive(Debug, Clone, PartialEq, Eq)]
pub struct AppliedMove {
    pub san: String,
    pub uci: String,
    pub fen: String,
}

/// The mathematical value of an `AppliedMove`.
pub struct AppliedRecord {
    pub san: Seq<char>,
    pub uci: Seq<char>,
    pub fen: Seq<char>,
}

impl View for AppliedMove {
    type V = AppliedRecord;

    open spec fn view(&self) -> AppliedRecord {
        AppliedRecord { san: self.san@, uci: self.uci@, fen: self.fen@ }
    }
}

#[derive(Debug)]
pub enum AnalysisError {
    InvalidFen(String),
    InvalidUci(String),
    IllegalMove(String),
}

#[derive(Debug)]
pub enum EngineError {
    Io(std::io::Error),
    Spawn(String),
    Protocol(String),
}

/// Whether `e` is the protocol error with the message `text`.
pub open spec fn is_protocol_error(e: EngineError, text: Seq<char>) -> bool {
    e matches EngineError::Protocol(m) && m@ == text
}

/// One ranked variation of an analysis.
#[derive(Debug, Clone, PartialEq, Eq)]
pub struct EngineLine {
    pub multipv_rank: u32,
    pub depth: u32,
    pub score_cp: Option<i32>,
    pub score_mate: Option<i32>,
    pub pv: Vec<String>,
    pub san_pv: Vec<String>,
}

/// The mathematical value of an `EngineLine`.
pub struct LineRecord {
    pub multipv_rank: u32,
    pub depth: u32,
    pub score_cp: Option<i32>,
    pub score_mate: Option<i32>,
    pub pv: Seq<Seq<char>>,
    pub san_pv: Seq<Seq<char>>,
}

impl View for EngineLine {
    type V = LineRecord;

    open spec fn view(&self) -> LineRecord {
        LineRecord {
            multipv_rank: self.multipv_rank,
            depth: self.depth,
            score_cp: self.score_cp,
            score_mate: self.score_mate,
            pv: texts(self.pv@),
            san_pv: texts(self.san_pv@),
        }
    }
}

/// The views of a sequence of lines.
pub open spec fn line_records(v: Seq<EngineLine>) -> Seq<LineRecord> {
    v.map_values(|l: EngineLine| l@)
}

/// The result of an analysis: the primary line's depth, score and moves,
/// the move to play, and every ranked line.
#[derive(Debug, Clone, PartialEq, Eq)]
pub struct EngineAnalysis {
    pub depth: u32,
    pub score_cp: Option<i32>,
    pub score_mate: Option<i32>,
    pub bestmove: Option<String>,
    pub pv: Vec<String>,
    pub lines: Vec<EngineLine>,
}

/// The mathematical value of an `EngineAnalysis`.
pub struct AnalysisRecord {
    pub depth: u32,
    pub score_cp: Option<i32>,
    pub score_mate: Option<i32>,
    pub bestmove: Option<Seq<char>>,
    pub pv: Seq<Seq<char>>,
    pub lines: Seq<LineRecord>,
}

impl View for EngineAnalysis {
    type V = AnalysisRecord;

    open spec fn view(&self) -> AnalysisRecord {
        AnalysisRecord {
            depth: self.depth,
            score_cp: self.score_cp,
            score_mate: self.score_mate,
            bestmove: optional_view(self.bestmove),
            pv: texts(self.pv@),
            lines: line_records(self.lines@),
        }
    }
}

/// Why an import failed.
#[derive(Debug)]
pub enum ImportError {
    Io(std::io::Error),
    Sql(rusqlite::Error),
}

/// The count of an import: the games met, and of these the ones stored,
/// the ones that were there already, and the ones that could not be read.
#[derive(Debug, Default, Clone, Copy, PartialEq, Eq)]
pub struct ImportSummary {
    pub total: usize,
    pub inserted: usize,
    pub skipped: usize,
    pub errors: usize,
}

/// The result that a search asks for.
#[derive(Debug, Default, Clone, Copy, PartialEq, Eq)]
pub enum GameResultFilter {
    #[default]
    Any,
    WhiteWin,
    BlackWin,
    Draw,
}

/// What a search asks of a game.
#[derive(Debug, Default, Clone, PartialEq, Eq)]
pub struct GameFilter {
    pub search_text: Option<String>,
    pub result: GameResultFilter,
    pub eco: Option<String>,
    pub event_or_site: Option<String>,
    pub date_from: Option<String>,
    pub date_to: Option<String>,
}

/// The page of a search: how many rows, after how many.
#[derive(Debug, Clone, Copy, PartialEq, Eq)]
pub struct Pagination {
    pub limit: u32,
    pub offset: u32,
}

/// The page size where none is asked for.
pub const DEFAULT_LIMIT: u32 = 50;

/// The largest page size.
pub const MAX_LIMIT: u32 = 500;

impl Default for Pagination {
    fn default() -> (page: Pagination)
        ensures
            page == (Pagination { limit: DEFAULT_LIMIT, offset: 0 }),
    {
        Pagination { limit: DEFAULT_LIMIT, offset: 0 }
    }
}

/// The page that a search uses: the default size in place of zero, no
/// more than the largest size, and the offset as it is.
pub open spec fn page_used(page: Pagination) -> Pagination {
    Pagination {
        limit: if page.limit == 0 {
            DEFAULT_LIMIT
        } else if page.limit > MAX_LIMIT {
            MAX_LIMIT
        } else {
            page.limit
        },
        offset: page.offset,
    }
}

impl Pagination {
    /// The page that a search uses.
    pub fn normalized(self) -> (page: Pagination)
        ensures
            page == page_used(self),
            1 <= page.limit <= MAX_LIMIT,
    {
        let limit = if self.limit == 0 {
            DEFAULT_LIMIT
        } else if self.limit > MAX_LIMIT {
            MAX_LIMIT
        } else {
            self.limit
        };
        Pagination { limit, offset: self.offset }
    }
}

/// One game of a search's answer.
#[derive(Debug, Clone, PartialEq, Eq)]
pub struct GameRow {
    pub id: i64,
    pub event: Option<String>,
    pub site: Option<String>,
    pub date: Option<String>,
    pub white: Option<String>,
    pub black: Option<String>,
    pub result: Option<String>,
    pub eco: Option<String>,
}

/// Why a search failed.
#[derive(Debug)]
pub enum QueryError {
    Sql(rusqlite::Error),
    InvalidDateFormat { field: &'static str, value: String },
    CountOverflow(i64),
}

/// Why a replay failed.
#[derive(Debug)]
pub enum ReplayError {
    Sql(rusqlite::Error),
    GameNotFound(i64),
    MissingMovetext(i64),
    InvalidSan { ply: usize, san: String },
}

/// A game, replayed: the position before the first move and after each
/// move, and each move in standard and in coordinate notation.
#[derive(Debug, Clone, PartialEq, Eq)]
pub struct ReplayTimeline {
    pub fens: Vec<String>,
    pub sans: Vec<String>,
    pub ucis: Vec<String>,
}

/// The mathematical value of a `ReplayTimeline`.
pub struct TimelineRecord {
    pub fens: Seq<Seq<char>>,
    pub sans: Seq<Seq<char>>,
    pub ucis: Seq<Seq<char>>,
}

impl View for ReplayTimeline {
    type V = TimelineRecord;

    open spec fn view(&self) -> TimelineRecord {
        TimelineRecord {
            fens: texts(self.fens@),
            sans: texts(self.sans@),
            ucis: texts(self.ucis@),
        }
    }
}

/// One node of a tree of moves.
#[derive(Debug, Clone, PartialEq, Eq)]
pub struct AnalysisWorkspaceNode {
    pub id: String,
    pub parent_id: Option<String>,
    pub san: Option<String>,
    pub uci: Option<String>,
    pub fen: String,
    pub comment: String,
    pub nags: Vec<String>,
    pub sort_index: i32,
}

/// What is stored of a workspace besides its nodes.
#[derive(Debug, Clone, PartialEq, Eq)]
pub struct AnalysisWorkspaceSummary {
    pub id: i64,
    pub source_db_path: String,
    pub game_id: i64,
    pub name: String,
    pub root_node_id: String,
    pub current_node_id: Option<String>,
    pub created_at: i64,
    pub updated_at: i64,
}

/// A workspace with its nodes.
#[derive(Debug, Clone, PartialEq, Eq)]
pub struct LoadedAnalysisWorkspace {
    pub workspace: AnalysisWorkspaceSummary,
    pub nodes: Vec<AnalysisWorkspaceNode>,
}

/// Why work on a workspace failed.
#[derive(Debug)]
pub enum AnalysisWorkspaceError {
    Sql(rusqlite::Error),
    Io(std::io::Error),
    NotFound(i64),
    InvalidInput(String),
}

impl From<std::io::Error> for ImportError {
    fn from(value: std::io::Error) -> (e: ImportError) {
        ImportError::Io(value)
    }
}

impl vstd::std_specs::convert::FromSpecImpl<std::io::Error> for ImportError {
    open spec fn obeys_from_spec() -> bool {
        true
    }

    open spec fn from_spec(value: std::io::Error) -> ImportError {
        ImportError::Io(value)
    }
}

impl From<std::io::Error> for EngineError {
    fn from(value: std::io::Error) -> (e: EngineError) {
        EngineError::Io(value)
    }
}

impl vstd::std_specs::convert::FromSpecImpl<std::io::Error> for EngineError {
    open spec fn obeys_from_spec() -> bool {
        true
    }

    open spec fn from_spec(value: std::io::Error) -> EngineError {
        EngineError::Io(value)
    }
}

impl From<std::io::Error> for AnalysisWorkspaceError {
    fn from(value: std::io::Error) -> (e: AnalysisWorkspaceError) {
        AnalysisWorkspaceError::Io(value)
    }
}

impl vstd::std_specs::convert::FromSpecImpl<std::io::Error> for AnalysisWorkspaceError {
    open spec fn obeys_from_spec() -> bool {
        true
    }

    open spec fn from_spec(value: std::io::Error) -> AnalysisWorkspaceError {
        AnalysisWorkspaceError::Io(value)
    }
}

impl From<rusqlite::Error> for ImportError {
    fn from(value: rusqlite::Error) -> (e: ImportError) {
        ImportError::Sql(value)
    }
}

impl vstd::std_specs::convert::FromSpecImpl<rusqlite::Error> for ImportError {
    open spec fn obeys_from_spec() -> bool {
        true
    }

    open spec fn from_spec(value: rusqlite::Error) -> ImportError {
        ImportError::Sql(value)
    }
}

impl From<rusqlite::Error> for QueryError {
    fn from(value: rusqlite::Error) -> (e: QueryError) {
        QueryError::Sql(value)
    }
}

impl vstd::std_specs::convert::FromSpecImpl<rusqlite::Error> for QueryError {
    open spec fn obeys_from_spec() -> bool {
        true
    }

    open spec fn from_spec(value: rusqlite::Error) -> QueryError {
        QueryError::Sql(value)
    }
}

impl From<rusqlite::Error> for ReplayError {
    fn from(value: rusqlite::Error) -> (e: ReplayError) {
        ReplayError::Sql(value)
    }
}

impl vstd::std_specs::convert::FromSpecImpl<rusqlite::Error> for ReplayError {
    open spec fn obeys_from_spec() -> bool {
        true
    }

    open spec fn from_spec(value: rusqlite::Error) -> ReplayError {
        ReplayError::Sql(value)
    }
}

impl From<rusqlite::Error> for AnalysisWorkspaceError {
    fn from(value: rusqlite::Error) -> (e: AnalysisWorkspaceError) {
        AnalysisWorkspaceError::Sql(value)
    }
}

impl vstd::std_specs::convert::FromSpecImpl<rusqlite::Error> for AnalysisWorkspaceError {
    open spec fn obeys_from_spec() -> bool {
        true
    }

    open spec fn from_spec(value: rusqlite::Error) -> AnalysisWorkspaceError {
        AnalysisWorkspaceError::Sql(value)
    }
}

} // verus!
