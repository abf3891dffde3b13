//! One search: the engine is told to think for a bounded time, reports lines
//! while it thinks and ends with a best move. The session collects the lines,
//! one per rank, and says after every event what is to be done next.
//!
//! A line is what one update reports: its rank, its score and its moves.
//! Nothing is carried from one update into the next.

use crate::protocol::{
    line_views, param_views, BestMove, BestMoveView, EngineEvent, EngineEventView, InfoParam,
    InfoParamView, PvInfo, PvInfoView, ScoreKind, SearchResult, SearchResultView,
};
use crate::select::{first_of_rank, has_moves, lemma_first_of_rank_unique};
use crate::text::{clone_strings, texts};
use vstd::prelude::*;

verus! {

/// The thinking time of a search, in milliseconds.
pub const SEARCH_TIME_MS: u64 = 10;

/// The thinking time of the one retry, in milliseconds: five times as long.
pub const ESCALATED_TIME_MS: u64 = 50;

/// The longest wait for an event, in seconds. A longer silence fails the
/// search.
pub const MAX_WAIT_SECS: u64 = 30;

/// The score that stands for a forced mate.
pub const MATE_SCORE: i32 = 10000;

/// What one update reports: the rank it names, if it names one, the score
/// and the moves. An update that reports no score counts as one with the
/// score 0, and one that reports no moves as one with none.
pub struct Report {
    pub rank: Option<int>,
    pub score: int,
    pub moves: Seq<Seq<char>>,
}

/// The state of a session.
pub struct SessionView {
    /// The lines collected so far, in the order in which their ranks first
    /// came up.
    pub lines: Seq<PvInfoView>,
    /// The search is the retry with the longer thinking time.
    pub escalated: bool,
}

/// What is to be done after an event.
pub enum SearchStepView {
    Wait,
    Retry(int),
    Done(Seq<PvInfoView>, SearchResultView),
    Failed,
}

/// A session with nothing collected.
pub open spec fn fresh_session(escalated: bool) -> SessionView {
    SessionView { lines: Seq::empty(), escalated }
}

/// The report of an update without items.
pub open spec fn blank_report() -> Report {
    Report { rank: None, score: 0, moves: Seq::empty() }
}

/// The score of a report: the number itself where it counts centipawns, and
/// the mate score with the number's sign where it counts moves to mate.
pub open spec fn reported_score(score: int, kind: ScoreKind) -> int {
    match kind {
        ScoreKind::CpExact | ScoreKind::CpLowerbound | ScoreKind::CpUpperbound => score,
        _ => if score > 0 {
            MATE_SCORE as int
        } else {
            -(MATE_SCORE as int)
        },
    }
}

/// The report after one more item of the update.
pub open spec fn absorbed(r: Report, param: InfoParamView) -> Report {
    match param {
        InfoParamView::MultiPv(rank) => Report { rank: Some(rank), ..r },
        InfoParamView::Score(score, kind) => Report { score: reported_score(score, kind), ..r },
        InfoParamView::Pv(moves) => Report { moves, ..r },
        InfoParamView::Other => r,
    }
}

/// The report after the items `params`, taken from left to right: of two items
/// of one sort the later counts.
pub open spec fn absorbed_all(r: Report, params: Seq<InfoParamView>) -> Report
    decreases params.len(),
{
    if params.len() == 0 {
        r
    } else {
        absorbed(absorbed_all(r, params.drop_last()), params.last())
    }
}

/// What an update reports. Nothing of an earlier update plays a part.
pub open spec fn report_of(params: Seq<InfoParamView>) -> Report {
    absorbed_all(blank_report(), params)
}

/// The line of rank `rank` that a report gives.
pub open spec fn line_of(rank: int, r: Report) -> PvInfoView {
    PvInfoView { multipv: rank, score: r.score, moves: r.moves }
}

/// The lines after a report. A report that names no rank, or no move, changes
/// nothing. Any other gives a line, which replaces the line of its rank, or is
/// added at the end where its rank is new.
pub open spec fn stored(lines: Seq<PvInfoView>, r: Report) -> Seq<PvInfoView> {
    match r.rank {
        Some(rank) if r.moves.len() > 0 => {
            if exists|i: int| first_of_rank(lines, rank, i) {
                lines.update(choose|i: int| first_of_rank(lines, rank, i), line_of(rank, r))
            } else {
                lines.push(line_of(rank, r))
            }
        },
        _ => lines,
    }
}

/// How the end of a search reads as a result.
pub open spec fn outcome(best: BestMoveView) -> SearchResultView {
    match best {
        BestMoveView::MakeMove(m) => SearchResultView::Move(m),
        BestMoveView::Resign => SearchResultView::Resign,
        BestMoveView::Win => SearchResultView::Checkmate,
    }
}

/// The session after an event, and what is to be done next.
///
/// What an update reports is stored, and the wait goes on. A best move ends
/// the search with the lines collected, but for one case: a resignation with
/// no line collected, in the first search, starts the retry with nothing
/// collected. Silence fails the search. When a search is done or has failed,
/// the session is fresh again.
pub open spec fn session_next(s: SessionView, e: EngineEventView) -> (SessionView, SearchStepView) {
    match e {
        EngineEventView::Info(params) => (
            SessionView { lines: stored(s.lines, report_of(params)), escalated: s.escalated },
            SearchStepView::Wait,
        ),
        EngineEventView::BestMove(best) => {
            if best is Resign && s.lines.len() == 0 && !s.escalated {
                (fresh_session(true), SearchStepView::Retry(ESCALATED_TIME_MS as int))
            } else {
                (fresh_session(false), SearchStepView::Done(s.lines, outcome(best)))
            }
        },
        EngineEventView::Other => (s, SearchStepView::Wait),
        EngineEventView::Silence => (fresh_session(false), SearchStepView::Failed),
    }
}

/// No two lines have the same rank, and every line holds a move.
pub open spec fn well_formed(lines: Seq<PvInfoView>) -> bool {
    &&& forall|i: int, j: int|
        0 <= i < j < lines.len() ==> (#[trigger] lines[i]).multipv != (#[trigger] lines[j]).multipv
    &&& forall|i: int| 0 <= i < lines.len() ==> has_moves(#[trigger] lines[i])
}

/// Storing a report keeps the lines well formed. Where the report gives a
/// line, that line is afterwards the line of its rank: the latest report of a
/// rank wins. A line of another rank stays as it is.
pub proof fn lemma_stored(lines: Seq<PvInfoView>, r: Report)
    requires
        well_formed(lines),
    ensures
        well_formed(stored(lines, r)),
        r.moves.len() > 0 ==> (r.rank matches Some(rank) ==> exists|i: int|
            first_of_rank(stored(lines, r), rank, i) && stored(lines, r)[i] == line_of(rank, r)),
        forall|i: int|
            0 <= i < lines.len() && r.rank != Some((#[trigger] lines[i]).multipv) ==> stored(
                lines,
                r,
            )[i] == lines[i],
{
    let after = stored(lines, r);
    match r.rank {
        Some(rank) if r.moves.len() > 0 => {
            if exists|i: int| first_of_rank(lines, rank, i) {
                let k = choose|i: int| first_of_rank(lines, rank, i);
                assert(first_of_rank(after, rank, k));
            } else {
                let k = lines.len() as int;
                assert forall|j: int| 0 <= j < k implies (#[trigger] after[j]).multipv != rank by {
                    assert(after[j] == lines[j]);
                    lemma_rank_absent(lines, rank, j);
                }
                assert(first_of_rank(after, rank, k));
            }
        },
        _ => {},
    }
}

/// A line is stored only with moves that the same update reported for its
/// rank: an update that names no move, or no rank, leaves every line as it is,
/// and any other changes no line but that of the rank it names, and adds no
/// line of another rank.
pub proof fn lemma_moves_belong_to_rank(lines: Seq<PvInfoView>, params: Seq<InfoParamView>)
    ensures
        report_of(params).moves.len() == 0 || report_of(params).rank is None ==> stored(
            lines,
            report_of(params),
        ) == lines,
        forall|i: int|
            0 <= i < stored(lines, report_of(params)).len() ==> {
                let line = #[trigger] stored(lines, report_of(params))[i];
                ||| i < lines.len() && line == lines[i]
                ||| report_of(params).rank == Some(line.multipv) && line.score == report_of(
                    params,
                ).score && line.moves == report_of(params).moves
            },
{
}

/// Where no line is the first of a rank, no line has that rank.
pub proof fn lemma_rank_absent(lines: Seq<PvInfoView>, rank: int, j: int)
    requires
        forall|i: int| !first_of_rank(lines, rank, i),
        0 <= j < lines.len(),
    ensures
        lines[j].multipv != rank,
    decreases j,
{
    if lines[j].multipv == rank {
        if forall|i: int| 0 <= i < j ==> (#[trigger] lines[i]).multipv != rank {
            assert(first_of_rank(lines, rank, j));
        } else {
            let i = choose|i: int| 0 <= i < j && (#[trigger] lines[i]).multipv == rank;
            lemma_rank_absent(lines, rank, i);
        }
    }
}

/// Every event keeps the lines of a session well formed, and so are the lines
/// that a finished search hands out.
pub proof fn lemma_session_next_well_formed(s: SessionView, e: EngineEventView)
    requires
        well_formed(s.lines),
    ensures
        well_formed(session_next(s, e).0.lines),
        session_next(s, e).1 matches SearchStepView::Done(lines, _) ==> well_formed(lines),
{
    match e {
        EngineEventView::Info(params) => {
            lemma_stored(s.lines, report_of(params));
        },
        _ => {},
    }
}

/// A search is retried at most once, and only after a resignation that left
/// no line: the retry itself ends with the next best move, whatever it is.
pub proof fn lemma_retry_once(s: SessionView, best: BestMoveView)
    ensures
        session_next(s, EngineEventView::BestMove(best)).1 is Retry <==> best is Resign
            && s.lines.len() == 0 && !s.escalated,
        session_next(s, EngineEventView::BestMove(best)).1 is Retry ==> session_next(
            s,
            EngineEventView::BestMove(best),
        ) == (fresh_session(true), SearchStepView::Retry(5 * SEARCH_TIME_MS)),
        s.escalated ==> session_next(s, EngineEventView::BestMove(best)).1
            == SearchStepView::Done(s.lines, outcome(best)),
{
}

/// What is to be done after an event.
#[derive(Debug, Clone, PartialEq, Eq)]
pub enum SearchStep {
    /// Wait for the next event.
    Wait,
    /// Tell the engine to search again, for this many milliseconds, and wait.
    Retry(u64),
    /// The search is over: the lines collected, and how it ended.
    Done(Vec<PvInfo>, SearchResult),
    /// The search has failed.
    Failed,
}

impl View for SearchStep {
    type V = SearchStepView;

    open spec fn view(&self) -> SearchStepView {
        match self {
            SearchStep::Wait => SearchStepView::Wait,
            SearchStep::Retry(ms) => SearchStepView::Retry(*ms as int),
            SearchStep::Done(lines, result) => SearchStepView::Done(line_views(lines@), result@),
            SearchStep::Failed => SearchStepView::Failed,
        }
    }
}

/// The collector of one search.
#[derive(Debug, Clone)]
pub struct SearchSession {
    pv_infos: Vec<PvInfo>,
    escalated: bool,
}

impl View for SearchSession {
    type V = SessionView;

    closed spec fn view(&self) -> SessionView {
        SessionView { lines: line_views(self.pv_infos@), escalated: self.escalated }
    }
}

/// What one update reports.
struct Update {
    multipv: Option<i32>,
    score: i32,
    moves: Vec<String>,
}

impl View for Update {
    type V = Report;

    closed spec fn view(&self) -> Report {
        Report {
            rank: match self.multipv {
                Some(rank) => Some(rank as int),
                None => None,
            },
            score: self.score as int,
            moves: texts(self.moves@),
        }
    }
}

/// Reads a score report.
pub fn read_score(score: i32, kind: ScoreKind) -> (r: i32)
    ensures
        r == reported_score(score as int, kind),
{
    match kind {
        ScoreKind::CpExact | ScoreKind::CpLowerbound | ScoreKind::CpUpperbound => score,
        ScoreKind::MateExact
        | ScoreKind::MateSignOnly
        | ScoreKind::MateLowerbound
        | ScoreKind::MateUpperbound => {
            if score > 0 {
                MATE_SCORE
            } else {
                -MATE_SCORE
            }
        },
    }
}

/// Reads the end of a search as a result.
pub fn read_best_move(best: BestMove) -> (r: SearchResult)
    ensures
        r@ == outcome(best@),
{
    match best {
        BestMove::MakeMove(mv) => SearchResult::Move(mv),
        BestMove::Resign => SearchResult::Resign,
        BestMove::Win => SearchResult::Checkmate,
    }
}

/// Reads an update.
fn read_update(params: &Vec<InfoParam>) -> (update: Update)
    ensures
        update@ == report_of(param_views(params@)),
{
    let ghost all = param_views(params@);
    let mut update = Update { multipv: None, score: 0, moves: Vec::new() };
    assert(update@.moves =~= Seq::<Seq<char>>::empty());
    let n: usize = params.len();
    let mut i: usize = 0;
    while i < n
        invariant
            n == params.len(),
            i <= n,
            all == param_views(params@),
            update@ == absorbed_all(blank_report(), all.take(i as int)),
        decreases n - i,
    {
        proof {
            let next = all.take(i + 1);
            assert(next.drop_last() =~= all.take(i as int));
            assert(next.last() == params@[i as int]@);
        }
        match &params[i] {
            InfoParam::MultiPv(pv) => {
                update.multipv = Some(*pv);
            },
            InfoParam::Score(score, kind) => {
                update.score = read_score(*score, *kind);
            },
            InfoParam::Pv(moves) => {
                update.moves = clone_strings(moves);
            },
            InfoParam::Other => {},
        }
        i += 1;
    }
    assert(all.take(n as int) =~= all);
    update
}

impl SearchSession {
    /// A session with nothing collected, for a first search.
    pub fn new() -> (s: SearchSession)
        ensures
            s@ == fresh_session(false),
    {
        let s = SearchSession { pv_infos: Vec::new(), escalated: false };
        assert(s@.lines =~= Seq::<PvInfoView>::empty());
        s
    }

    fn reset(&mut self, escalated: bool)
        ensures
            final(self)@ == fresh_session(escalated),
    {
        self.pv_infos = Vec::new();
        self.escalated = escalated;
        assert(self@.lines =~= Seq::<PvInfoView>::empty());
    }

    fn store(&mut self, update: Update)
        ensures
            final(self)@.lines == stored(old(self)@.lines, update@),
            final(self)@.escalated == old(self)@.escalated,
    {
        let rank: i32 = match update.multipv {
            Some(rank) => rank,
            None => {
                return ;
            },
        };
        if update.moves.len() == 0 {
            return ;
        }
        let ghost lines = self@.lines;
        let ghost report = update@;
        let line = PvInfo { multipv: rank, score: update.score, moves: update.moves };
        assert(line@ == line_of(rank as int, report));
        let n: usize = self.pv_infos.len();
        let mut i: usize = 0;
        while i < n
            invariant
                n == self.pv_infos.len(),
                i <= n,
                lines == old(self)@.lines,
                self@.lines == lines,
                self@.escalated == old(self)@.escalated,
                report == update@,
                report.rank == Some(rank as int),
                report.moves.len() > 0,
                line@ == line_of(rank as int, report),
                forall|j: int| 0 <= j < i ==> (#[trigger] lines[j]).multipv != rank,
            decreases n - i,
        {
            if self.pv_infos[i].multipv == rank {
                proof {
                    assert(first_of_rank(lines, rank as int, i as int));
                    let k = choose|k: int| first_of_rank(lines, rank as int, k);
                    lemma_first_of_rank_unique(lines, rank as int, i as int, k);
                }
                self.pv_infos.set(i, line);
                assert(self@.lines =~= lines.update(i as int, line_of(rank as int, report)));
                return ;
            }
            i += 1;
        }
        assert(!exists|k: int| first_of_rank(lines, rank as int, k));
        self.pv_infos.push(line);
        assert(self@.lines =~= lines.push(line_of(rank as int, report)));
    }

    /// Takes in one event and says what is to be done next.
    pub fn step(&mut self, event: EngineEvent) -> (step: SearchStep)
        ensures
            (final(self)@, step@) == session_next(old(self)@, event@),
    {
        match event {
            EngineEvent::Info(params) => {
                let update: Update = read_update(&params);
                self.store(update);
                SearchStep::Wait
            },
            EngineEvent::BestMove(best) => {
                let resigned: bool = match &best {
                    BestMove::Resign => true,
                    _ => false,
                };
                if resigned && self.pv_infos.len() == 0 && !self.escalated {
                    self.reset(true);
                    SearchStep::Retry(ESCALATED_TIME_MS)
                } else {
                    let mut lines: Vec<PvInfo> = Vec::new();
                    std::mem::swap(&mut self.pv_infos, &mut lines);
                    self.reset(false);
                    SearchStep::Done(lines, read_best_move(best))
                }
            },
            EngineEvent::Other => SearchStep::Wait,
            EngineEvent::Silence => {
                self.reset(false);
                SearchStep::Failed
            },
        }
    }
}

} // verus!
