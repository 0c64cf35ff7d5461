//! A chess-preparation backend without its input and output: the protocol
//! of an analysis engine session, the reading of the engine's analysis
//! lines, the ranking of its variations, move notation and game replay
//! on the rules of `shakmaty`, and the rules that guard the game database.

pub mod aggregate;
pub mod console;
pub mod import;
pub mod info;
pub mod number;
pub mod options;
pub mod protocol;
pub mod query;
pub mod replay;
pub mod rules;
pub mod session;
pub mod text;
pub mod tsv;
pub mod types;
pub mod workspace;

pub use aggregate::{normalized_depth, normalized_multipv, summarize, RankTable};
pub use info::{better_info, parse_info_line, ParsedInfoLine};
pub use protocol::{Analysis, AnalysisStep, Handshake, HandshakeStep};
pub use replay::{replay_game, replay_game_fens};
pub use rules::{apply_uci_to_fen, legal_uci_moves_for_fen, pv_uci_to_san};
pub use session::{
    analyze_position, analyze_position_multipv, collect_analysis_result, wait_for_uci_token,
    EngineSession,
};
pub use types::{
    AnalysisError, AnalysisWorkspaceError, AnalysisWorkspaceNode, AnalysisWorkspaceSummary,
    AppliedMove, EngineAnalysis, EngineError, EngineLine, GameFilter, GameResultFilter, GameRow,
    ImportError, ImportSummary, LoadedAnalysisWorkspace, Pagination, QueryError, ReplayError,
    ReplayTimeline,
};
