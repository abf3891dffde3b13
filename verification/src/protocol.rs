//! What travels between the simulator and the engine: the commands that the
//! simulator sends, the events that the engine answers with, and the
//! candidate lines that a search collects.

use crate::text::texts;
use vstd::prelude::*;

verus! {

/// How the number in a score report is to be read.
#[derive(Debug, Clone, Copy, PartialEq, Eq, Structural)]
pub enum ScoreKind {
    CpExact,
    CpLowerbound,
    CpUpperbound,
    MateExact,
    MateSignOnly,
    MateLowerbound,
    MateUpperbound,
}

/// One item of an evaluation update.
#[derive(Debug, Clone, PartialEq, Eq)]
pub enum InfoParam {
    /// The rank of the line that the update is about.
    MultiPv(i32),
    /// A score and how to read it.
    Score(i32, ScoreKind),
    /// The moves of the line.
    Pv(Vec<String>),
    /// Anything else; it plays no part in a search.
    Other,
}

pub enum InfoParamView {
    MultiPv(int),
    Score(int, ScoreKind),
    Pv(Seq<Seq<char>>),
    Other,
}

impl View for InfoParam {
    type V = InfoParamView;

    open spec fn view(&self) -> InfoParamView {
        match self {
            InfoParam::MultiPv(rank) => InfoParamView::MultiPv(*rank as int),
            InfoParam::Score(score, kind) => InfoParamView::Score(*score as int, *kind),
            InfoParam::Pv(moves) => InfoParamView::Pv(texts(moves@)),
            InfoParam::Other => InfoParamView::Other,
        }
    }
}

/// The views of a list of update items.
pub open spec fn param_views(v: Seq<InfoParam>) -> Seq<InfoParamView> {
    Seq::new(v.len(), |i: int| v[i]@)
}

/// How the engine ends a search.
#[derive(Debug, Clone, PartialEq, Eq)]
pub enum BestMove {
    /// It plays this move.
    MakeMove(String),
    /// It resigns.
    Resign,
    /// It declares the game won.
    Win,
}

pub enum BestMoveView {
    MakeMove(Seq<char>),
    Resign,
    Win,
}

impl View for BestMove {
    type V = BestMoveView;

    open spec fn view(&self) -> BestMoveView {
        match self {
            BestMove::MakeMove(m) => BestMoveView::MakeMove(m@),
            BestMove::Resign => BestMoveView::Resign,
            BestMove::Win => BestMoveView::Win,
        }
    }
}

/// What a wait for the engine brings.
#[derive(Debug, Clone, PartialEq, Eq)]
pub enum EngineEvent {
    /// An evaluation update.
    Info(Vec<InfoParam>),
    /// The end of the search.
    BestMove(BestMove),
    /// A message that plays no part in a search.
    Other,
    /// Nothing at all within the longest wait.
    Silence,
}

pub enum EngineEventView {
    Info(Seq<InfoParamView>),
    BestMove(BestMoveView),
    Other,
    Silence,
}

impl View for EngineEvent {
    type V = EngineEventView;

    open spec fn view(&self) -> EngineEventView {
        match self {
            EngineEvent::Info(params) => EngineEventView::Info(param_views(params@)),
            EngineEvent::BestMove(best) => EngineEventView::BestMove(best@),
            EngineEvent::Other => EngineEventView::Other,
            EngineEvent::Silence => EngineEventView::Silence,
        }
    }
}

/// One line that the engine reported: its rank, its score and its moves.
#[derive(Debug, Clone, PartialEq, Eq)]
pub struct PvInfo {
    pub multipv: i32,
    pub score: i32,
    pub moves: Vec<String>,
}

pub struct PvInfoView {
    pub multipv: int,
    pub score: int,
    pub moves: Seq<Seq<char>>,
}

impl View for PvInfo {
    type V = PvInfoView;

    open spec fn view(&self) -> PvInfoView {
        PvInfoView {
            multipv: self.multipv as int,
            score: self.score as int,
            moves: texts(self.moves@),
        }
    }
}

/// The views of a list of lines.
pub open spec fn line_views(v: Seq<PvInfo>) -> Seq<PvInfoView> {
    Seq::new(v.len(), |i: int| v[i]@)
}

/// How a search ended.
#[derive(Debug, Clone, PartialEq, Eq)]
pub enum SearchResult {
    Move(String),
    Checkmate,
    Resign,
}

pub enum SearchResultView {
    Move(Seq<char>),
    Checkmate,
    Resign,
}

impl View for SearchResult {
    type V = SearchResultView;

    open spec fn view(&self) -> SearchResultView {
        match self {
            SearchResult::Move(m) => SearchResultView::Move(m@),
            SearchResult::Checkmate => SearchResultView::Checkmate,
            SearchResult::Resign => SearchResultView::Resign,
        }
    }
}

/// A command for the engine.
#[derive(Debug, Clone, PartialEq, Eq)]
pub enum Command {
    /// Set the option `name` to `value`.
    SetOption(String, String),
    /// Set up the position that this text describes.
    Position(String),
    /// Search, for at most this many milliseconds.
    Go(u64),
    /// Start a new game.
    NewGame,
}

pub enum CommandView {
    SetOption(Seq<char>, Seq<char>),
    Position(Seq<char>),
    Go(int),
    NewGame,
}

impl View for Command {
    type V = CommandView;

    open spec fn view(&self) -> CommandView {
        match self {
            Command::SetOption(name, value) => CommandView::SetOption(name@, value@),
            Command::Position(text) => CommandView::Position(text@),
            Command::Go(ms) => CommandView::Go(*ms as int),
            Command::NewGame => CommandView::NewGame,
        }
    }
}

/// The views of a list of commands.
pub open spec fn command_views(v: Seq<Command>) -> Seq<CommandView> {
    Seq::new(v.len(), |i: int| v[i]@)
}

} // verus!
