//! One simulated game. Black, the attacker, plays the engine's best move and
//! White, the defender, its worst, until one side is mated or the game has
//! lasted too long.
//!
//! The simulator neither talks to the engine nor knows the rules. After every
//! event it says what is to be done next: commands to send, a wait, a move to
//! apply to the board, a position to mirror, or the result of the game.

use crate::moves::{convert_move_files, converted};
use crate::protocol::{
    command_views, Command, CommandView, EngineEvent, EngineEventView, PvInfoView, SearchResult,
    SearchResultView,
};
use crate::search::{
    fresh_session, session_next, SearchSession, SearchStep, SearchStepView, SessionView,
    SEARCH_TIME_MS,
};
use crate::select::{best_choice, choice_view, select_best, select_worst, worst_choice};
use crate::sfen::{
    absent, fields, lemma_normalized_fields, lemma_normalized_side, normalize_mirrored,
    normalized, occurs_at, position_command_text, position_only, position_only_sfen,
    position_text, side_mark,
};
use crate::text::texts;
use vstd::prelude::*;

verus! {

/// The number of moves after which a game is given up.
pub const MAX_MOVES: usize = 300;

/// How a game ended.
#[derive(Debug, Clone, PartialEq, Eq)]
pub enum GameResult {
    /// With a mate: the position before the last move, the attacker to move.
    Checkmate(String),
    /// Not within the longest game.
    NoResult,
    /// With a failure of the engine or a move that the rules refuse.
    Error,
}

pub enum GameResultView {
    Checkmate(Seq<char>),
    NoResult,
    Error,
}

impl View for GameResult {
    type V = GameResultView;

    open spec fn view(&self) -> GameResultView {
        match self {
            GameResult::Checkmate(sfen) => GameResultView::Checkmate(sfen@),
            GameResult::NoResult => GameResultView::NoResult,
            GameResult::Error => GameResultView::Error,
        }
    }
}

/// What happened since the simulator last said what to do.
#[derive(Debug, Clone, PartialEq, Eq)]
pub enum GameEvent {
    /// The wait for the engine brought this.
    Engine(EngineEvent),
    /// The move was applied; this is the position after it.
    Applied(String),
    /// The rules refuse the move.
    Rejected,
    /// This is the mirror image of the position.
    Mirrored(String),
}

pub enum GameEventView {
    Engine(EngineEventView),
    Applied(Seq<char>),
    Rejected,
    Mirrored(Seq<char>),
}

impl View for GameEvent {
    type V = GameEventView;

    open spec fn view(&self) -> GameEventView {
        match self {
            GameEvent::Engine(e) => GameEventView::Engine(e@),
            GameEvent::Applied(sfen) => GameEventView::Applied(sfen@),
            GameEvent::Rejected => GameEventView::Rejected,
            GameEvent::Mirrored(sfen) => GameEventView::Mirrored(sfen@),
        }
    }
}

/// What is to be done next.
#[derive(Debug, Clone, PartialEq, Eq)]
pub enum GameAction {
    /// Send these commands to the engine, in this order, and wait for it.
    Send(Vec<Command>),
    /// Wait for the engine.
    Wait,
    /// Apply this move, written in the convention of the rules, to the board.
    Apply(String),
    /// Mirror this position.
    Mirror(String),
    /// Stop: the game has ended so.
    Finish(GameResult),
}

pub enum GameActionView {
    Send(Seq<CommandView>),
    Wait,
    Apply(Seq<char>),
    Mirror(Seq<char>),
    Finish(GameResultView),
}

impl View for GameAction {
    type V = GameActionView;

    open spec fn view(&self) -> GameActionView {
        match self {
            GameAction::Send(commands) => GameActionView::Send(command_views(commands@)),
            GameAction::Wait => GameActionView::Wait,
            GameAction::Apply(m) => GameActionView::Apply(m@),
            GameAction::Mirror(sfen) => GameActionView::Mirror(sfen@),
            GameAction::Finish(r) => GameActionView::Finish(r@),
        }
    }
}

/// What the simulator is waiting for.
#[derive(Debug, Clone, Copy, PartialEq, Eq, Structural)]
pub enum Phase {
    /// For the engine.
    Listening,
    /// For the move to be applied.
    Applying,
    /// For the mirror image.
    Mirroring,
    /// For nothing: the game has ended.
    Finished,
}

/// The state of a game.
pub struct GameView {
    /// The position in which every game starts, as the engine is told it.
    pub base: Seq<char>,
    /// The moves made, in the convention of the engine.
    pub history: Seq<Seq<char>>,
    pub black_to_move: bool,
    /// The position on the board.
    pub current: Seq<char>,
    /// The position before the last move; empty before the first.
    pub before_last_move: Seq<char>,
    pub phase: Phase,
    pub session: SessionView,
    /// The move that is being applied.
    pub chosen: Seq<char>,
}

/// A game before its first move, and the first thing to do.
pub open spec fn game_start(base: Seq<char>, position: Seq<char>) -> (GameView, GameActionView) {
    turn_start(
        GameView {
            base,
            history: Seq::empty(),
            black_to_move: true,
            current: position_only(position),
            before_last_move: Seq::empty(),
            phase: Phase::Listening,
            session: fresh_session(false),
            chosen: Seq::empty(),
        },
    )
}

/// A turn starts: the engine is told the position and to search, and a
/// session with nothing collected waits for what it finds.
pub open spec fn turn_start(g: GameView) -> (GameView, GameActionView) {
    (
        GameView { phase: Phase::Listening, session: fresh_session(false), ..g },
        GameActionView::Send(
            seq![
                CommandView::Position(position_text(g.base, g.history)),
                CommandView::Go(SEARCH_TIME_MS as int),
            ],
        ),
    )
}

/// The game ends.
pub open spec fn finish(g: GameView, result: GameResultView) -> (GameView, GameActionView) {
    (GameView { phase: Phase::Finished, ..g }, GameActionView::Finish(result))
}

/// The side that was to move is mated. The puzzle is the position before the
/// last move; where the attacker is the one mated, it is mirrored first.
pub open spec fn mated(g: GameView, attacker_lost: bool) -> (GameView, GameActionView) {
    if attacker_lost {
        (GameView { phase: Phase::Mirroring, ..g }, GameActionView::Mirror(g.before_last_move))
    } else {
        finish(g, GameResultView::Checkmate(g.before_last_move))
    }
}

/// The side to move has chosen. With no move to choose, it is mated. A move
/// is handed to the board in the convention of the rules. A declared win mates
/// the other side.
pub open spec fn chosen(g: GameView, choice: Option<SearchResultView>) -> (
    GameView,
    GameActionView,
) {
    match choice {
        None => mated(g, g.black_to_move),
        Some(SearchResultView::Move(m)) => (
            GameView { phase: Phase::Applying, before_last_move: g.current, chosen: m, ..g },
            GameActionView::Apply(converted(m)),
        ),
        Some(SearchResultView::Checkmate) => mated(g, !g.black_to_move),
        Some(SearchResultView::Resign) => finish(g, GameResultView::Error),
    }
}

/// The choice of the side to move: the attacker's is the best, the defender's
/// the worst.
pub open spec fn choice_of(
    black_to_move: bool,
    lines: Seq<PvInfoView>,
    result: SearchResultView,
) -> Option<SearchResultView> {
    if black_to_move {
        best_choice(lines, result)
    } else {
        worst_choice(lines, result)
    }
}

/// The game after an event, and what is to be done next.
///
/// An event that the simulator is not waiting for ends the game with an
/// error, and so does every event after the end.
pub open spec fn game_next(g: GameView, e: GameEventView) -> (GameView, GameActionView) {
    match (g.phase, e) {
        (Phase::Listening, GameEventView::Engine(event)) => {
            let (session, step) = session_next(g.session, event);
            let g = GameView { session, ..g };
            match step {
                SearchStepView::Wait => (g, GameActionView::Wait),
                SearchStepView::Retry(ms) => (
                    g,
                    GameActionView::Send(seq![CommandView::Go(ms)]),
                ),
                SearchStepView::Done(lines, result) => chosen(
                    g,
                    choice_of(g.black_to_move, lines, result),
                ),
                SearchStepView::Failed => finish(g, GameResultView::Error),
            }
        },
        (Phase::Applying, GameEventView::Applied(sfen)) => {
            let g = GameView {
                history: g.history.push(g.chosen),
                black_to_move: !g.black_to_move,
                current: position_only(sfen),
                chosen: Seq::empty(),
                ..g
            };
            if g.history.len() >= MAX_MOVES {
                finish(g, GameResultView::NoResult)
            } else {
                turn_start(g)
            }
        },
        (Phase::Mirroring, GameEventView::Mirrored(sfen)) => finish(
            g,
            GameResultView::Checkmate(normalized(sfen)),
        ),
        _ => finish(g, GameResultView::Error),
    }
}

/// A game that has not ended has seen fewer moves than the longest game, and
/// no game has seen more.
pub open spec fn within_ceiling(g: GameView) -> bool {
    if g.phase == Phase::Finished {
        g.history.len() <= MAX_MOVES
    } else {
        g.history.len() < MAX_MOVES
    }
}

/// A game starts within the longest game.
pub proof fn lemma_start_within_ceiling(base: Seq<char>, position: Seq<char>)
    ensures
        within_ceiling(game_start(base, position).0),
{
}

/// No event takes a game beyond the longest game.
pub proof fn lemma_next_within_ceiling(g: GameView, e: GameEventView)
    requires
        within_ceiling(g),
    ensures
        within_ceiling(game_next(g, e).0),
{
}

/// A game ends with a puzzle only when a side is mated. Either the mirror
/// image of the position came in, which the simulator asks for when the
/// attacker is mated; or a search has just ended that mates the defender:
/// the defender has no move to choose, or the attacker declares the win.
pub proof fn lemma_puzzle_needs_mate(g: GameView, e: GameEventView)
    requires
        game_next(g, e).1 matches GameActionView::Finish(GameResultView::Checkmate(_)),
    ensures
        g.phase == Phase::Mirroring || g.phase == Phase::Listening,
        g.phase == Phase::Mirroring ==> e is Mirrored,
        g.phase == Phase::Listening ==> {
            &&& e matches GameEventView::Engine(event)
            &&& session_next(g.session, event).1 matches SearchStepView::Done(lines, result)
            &&& {
                let choice = choice_of(g.black_to_move, lines, result);
                if g.black_to_move {
                    choice == Some(SearchResultView::Checkmate)
                } else {
                    choice is None
                }
            }
            &&& game_next(g, e).1 == GameActionView::Finish(
                GameResultView::Checkmate(g.before_last_move),
            )
        },
{
}

/// The simulator asks for a mirror image exactly when a search has ended that
/// mates the attacker: the attacker has no move to choose, or the defender
/// declares the win. The position to mirror is the one before the last move.
pub proof fn lemma_mirror_when_attacker_mated(g: GameView, e: GameEventView)
    requires
        game_next(g, e).1 is Mirror,
    ensures
        g.phase == Phase::Listening,
        game_next(g, e).1 == GameActionView::Mirror(g.before_last_move),
        game_next(g, e).0.phase == Phase::Mirroring,
        e matches GameEventView::Engine(event) && session_next(
            g.session,
            event,
        ).1 matches SearchStepView::Done(lines, result) && {
            let choice = choice_of(g.black_to_move, lines, result);
            if g.black_to_move {
                choice is None
            } else {
                choice == Some(SearchResultView::Checkmate)
            }
        },
{
}

/// The puzzle of a game in which the attacker was mated has Black to move and
/// the move counter 1; its board and hands are those of the mirror image. It
/// says behind its board that Black is to move, and nowhere that White is,
/// unless the hands of the mirror image are written as the single letter `w`.
/// This holds of every mirror image that has the four fields of a position.
pub proof fn lemma_mirrored_puzzle(g: GameView, mirrored: Seq<char>)
    requires
        g.phase == Phase::Mirroring,
        fields(mirrored).len() >= 4,
    ensures
        game_next(g, GameEventView::Mirrored(mirrored)).1 == GameActionView::Finish(
            GameResultView::Checkmate(normalized(mirrored)),
        ),
        fields(normalized(mirrored)) == seq![
            fields(mirrored)[0],
            seq!['b'],
            fields(mirrored)[2],
            seq!['1'],
        ],
        occurs_at(normalized(mirrored), side_mark('b'), fields(mirrored)[0].len() as int),
        fields(mirrored)[2] != seq!['w'] ==> absent(normalized(mirrored), side_mark('w')),
{
    lemma_normalized_fields(mirrored);
    lemma_normalized_side(mirrored);
}

/// A move that was chosen goes to the board in the convention of the rules
/// and into the history as the engine wrote it.
pub proof fn lemma_move_is_translated(g: GameView, m: Seq<char>, sfen: Seq<char>)
    ensures
        chosen(g, Some(SearchResultView::Move(m))).1 == GameActionView::Apply(converted(m)),
        ({
            let applying = chosen(g, Some(SearchResultView::Move(m))).0;
            let after = game_next(applying, GameEventView::Applied(sfen)).0;
            &&& applying.before_last_move == g.current
            &&& after.history == g.history.push(m)
            &&& after.before_last_move == g.current
            &&& after.black_to_move == !g.black_to_move
        }),
{
}

/// The simulator of one game.
#[derive(Debug, Clone)]
pub struct Game {
    base: String,
    history: Vec<String>,
    black_to_move: bool,
    current: String,
    before_last_move: String,
    phase: Phase,
    session: SearchSession,
    chosen: String,
}

impl View for Game {
    type V = GameView;

    closed spec fn view(&self) -> GameView {
        GameView {
            base: self.base@,
            history: texts(self.history@),
            black_to_move: self.black_to_move,
            current: self.current@,
            before_last_move: self.before_last_move@,
            phase: self.phase,
            session: self.session@,
            chosen: self.chosen@,
        }
    }
}

impl Game {
    /// Starts a game. `base` is the starting position as the engine is to be
    /// told it, `position` the same position as the rules write it.
    pub fn start(base: &str, position: &str) -> (r: (Game, GameAction))
        ensures
            (r.0@, r.1@) == game_start(base@, position@),
    {
        let mut game = Game {
            base: String::from_str(base),
            history: Vec::new(),
            black_to_move: true,
            current: position_only_sfen(position),
            before_last_move: String::new(),
            phase: Phase::Listening,
            session: SearchSession::new(),
            chosen: String::new(),
        };
        assert(game@.history =~= Seq::<Seq<char>>::empty());
        let action = game.start_turn();
        (game, action)
    }

    /// Whether the game has ended.
    pub fn is_finished(&self) -> (b: bool)
        ensures
            b == (self@.phase == Phase::Finished),
    {
        self.phase == Phase::Finished
    }

    fn start_turn(&mut self) -> (action: GameAction)
        ensures
            (final(self)@, action@) == turn_start(old(self)@),
    {
        self.phase = Phase::Listening;
        self.session = SearchSession::new();
        let mut commands: Vec<Command> = Vec::new();
        commands.push(Command::Position(position_command_text(self.base.as_str(), &self.history)));
        commands.push(Command::Go(SEARCH_TIME_MS));
        assert(command_views(commands@) =~= seq![
            CommandView::Position(position_text(old(self)@.base, old(self)@.history)),
            CommandView::Go(SEARCH_TIME_MS as int),
        ]);
        GameAction::Send(commands)
    }

    fn end(&mut self, result: GameResult) -> (action: GameAction)
        ensures
            (final(self)@, action@) == finish(old(self)@, result@),
    {
        self.phase = Phase::Finished;
        GameAction::Finish(result)
    }

    fn on_mate(&mut self, attacker_lost: bool) -> (action: GameAction)
        ensures
            (final(self)@, action@) == mated(old(self)@, attacker_lost),
    {
        if attacker_lost {
            self.phase = Phase::Mirroring;
            GameAction::Mirror(self.before_last_move.clone())
        } else {
            let sfen: String = self.before_last_move.clone();
            self.end(GameResult::Checkmate(sfen))
        }
    }

    fn on_choice(&mut self, choice: Option<SearchResult>) -> (action: GameAction)
        ensures
            (final(self)@, action@) == chosen(old(self)@, choice_view(choice)),
    {
        match choice {
            None => {
                let attacker_lost: bool = self.black_to_move;
                self.on_mate(attacker_lost)
            },
            Some(SearchResult::Move(chosen_move)) => {
                let token: String = convert_move_files(chosen_move.as_str());
                self.before_last_move = self.current.clone();
                self.chosen = chosen_move;
                self.phase = Phase::Applying;
                GameAction::Apply(token)
            },
            Some(SearchResult::Checkmate) => {
                let attacker_lost: bool = !self.black_to_move;
                self.on_mate(attacker_lost)
            },
            Some(SearchResult::Resign) => self.end(GameResult::Error),
        }
    }

    /// Takes in one event and says what is to be done next.
    pub fn step(&mut self, event: GameEvent) -> (action: GameAction)
        ensures
            (final(self)@, action@) == game_next(old(self)@, event@),
    {
        match (self.phase, event) {
            (Phase::Listening, GameEvent::Engine(engine_event)) => {
                let step: SearchStep = self.session.step(engine_event);
                match step {
                    SearchStep::Wait => GameAction::Wait,
                    SearchStep::Retry(ms) => {
                        let mut commands: Vec<Command> = Vec::new();
                        commands.push(Command::Go(ms));
                        assert(command_views(commands@) =~= seq![CommandView::Go(ms as int)]);
                        GameAction::Send(commands)
                    },
                    SearchStep::Done(lines, result) => {
                        let choice: Option<SearchResult> = if self.black_to_move {
                            select_best(&lines, result)
                        } else {
                            select_worst(&lines, result)
                        };
                        self.on_choice(choice)
                    },
                    SearchStep::Failed => self.end(GameResult::Error),
                }
            },
            (Phase::Applying, GameEvent::Applied(sfen)) => {
                let ghost before = self@;
                let mut made: String = String::new();
                std::mem::swap(&mut self.chosen, &mut made);
                self.history.push(made);
                self.black_to_move = !self.black_to_move;
                self.current = position_only_sfen(sfen.as_str());
                assert(self@.history =~= before.history.push(before.chosen));
                if self.history.len() >= MAX_MOVES {
                    self.end(GameResult::NoResult)
                } else {
                    self.start_turn()
                }
            },
            (Phase::Mirroring, GameEvent::Mirrored(sfen)) => {
                let puzzle: String = normalize_mirrored(sfen.as_str());
                self.end(GameResult::Checkmate(puzzle))
            },
            _ => self.end(GameResult::Error),
        }
    }
}

} // verus!
