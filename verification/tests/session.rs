use tsume_generator::protocol::{BestMove, EngineEvent, InfoParam, PvInfo, ScoreKind, SearchResult};
use tsume_generator::search::{
    read_best_move, read_score, SearchSession, SearchStep, ESCALATED_TIME_MS, MATE_SCORE,
    MAX_WAIT_SECS, SEARCH_TIME_MS,
};

fn pv(moves: &[&str]) -> InfoParam {
    InfoParam::Pv(moves.iter().map(|m| m.to_string()).collect())
}

fn line(multipv: i32, score: i32, moves: &[&str]) -> PvInfo {
    PvInfo {
        multipv,
        score,
        moves: moves.iter().map(|m| m.to_string()).collect(),
    }
}

fn update(rank: i32, score: i32, kind: ScoreKind, moves: &[&str]) -> EngineEvent {
    EngineEvent::Info(vec![
        InfoParam::Other,
        InfoParam::MultiPv(rank),
        InfoParam::Score(score, kind),
        pv(moves),
    ])
}

fn played(m: &str) -> EngineEvent {
    EngineEvent::BestMove(BestMove::MakeMove(m.to_string()))
}

#[test]
fn time_budgets() {
    assert_eq!(SEARCH_TIME_MS, 10);
    assert_eq!(ESCALATED_TIME_MS, 5 * SEARCH_TIME_MS);
    assert_eq!(MAX_WAIT_SECS, 30);
    assert_eq!(MATE_SCORE, 10000);
}

#[test]
fn scores_are_read_by_kind() {
    assert_eq!(read_score(123, ScoreKind::CpExact), 123);
    assert_eq!(read_score(-45, ScoreKind::CpLowerbound), -45);
    assert_eq!(read_score(0, ScoreKind::CpUpperbound), 0);
    assert_eq!(read_score(3, ScoreKind::MateExact), 10000);
    assert_eq!(read_score(-3, ScoreKind::MateExact), -10000);
    assert_eq!(read_score(1, ScoreKind::MateSignOnly), 10000);
    assert_eq!(read_score(-1, ScoreKind::MateSignOnly), -10000);
    assert_eq!(read_score(0, ScoreKind::MateLowerbound), -10000);
    assert_eq!(read_score(7, ScoreKind::MateUpperbound), 10000);
    assert_eq!(read_score(i32::MIN, ScoreKind::MateUpperbound), -10000);
    assert_eq!(read_score(i32::MAX, ScoreKind::CpExact), i32::MAX);
}

#[test]
fn best_moves_are_read_as_results() {
    assert_eq!(
        read_best_move(BestMove::MakeMove("1e2d".to_string())),
        SearchResult::Move("1e2d".to_string())
    );
    assert_eq!(read_best_move(BestMove::Resign), SearchResult::Resign);
    assert_eq!(read_best_move(BestMove::Win), SearchResult::Checkmate);
}

#[test]
fn lines_are_collected_by_rank() {
    let mut session = SearchSession::new();
    assert_eq!(session.step(update(1, 50, ScoreKind::CpExact, &["1e2d"])), SearchStep::Wait);
    assert_eq!(session.step(update(2, -300, ScoreKind::CpExact, &["3a2b"])), SearchStep::Wait);
    assert_eq!(session.step(EngineEvent::Other), SearchStep::Wait);
    assert_eq!(
        session.step(played("1e2d")),
        SearchStep::Done(
            vec![line(1, 50, &["1e2d"]), line(2, -300, &["3a2b"])],
            SearchResult::Move("1e2d".to_string())
        )
    );
}

#[test]
fn the_latest_report_of_a_rank_wins() {
    let mut session = SearchSession::new();
    session.step(update(1, 50, ScoreKind::CpExact, &["1e2d"]));
    session.step(update(2, -300, ScoreKind::CpExact, &["3a2b"]));
    session.step(update(1, 4, ScoreKind::MateExact, &["2a2b", "2e2d"]));
    assert_eq!(
        session.step(EngineEvent::BestMove(BestMove::Win)),
        SearchStep::Done(
            vec![line(1, 10000, &["2a2b", "2e2d"]), line(2, -300, &["3a2b"])],
            SearchResult::Checkmate
        )
    );
}

#[test]
fn an_update_without_moves_stores_nothing() {
    let mut session = SearchSession::new();
    session.step(EngineEvent::Info(vec![
        InfoParam::MultiPv(3),
        InfoParam::Score(12, ScoreKind::CpExact),
    ]));
    session.step(EngineEvent::Info(vec![InfoParam::MultiPv(3), pv(&[])]));
    assert_eq!(
        session.step(played("1e2d")),
        SearchStep::Done(Vec::new(), SearchResult::Move("1e2d".to_string()))
    );
}

#[test]
fn an_update_without_a_rank_stores_nothing() {
    let mut session = SearchSession::new();
    session.step(EngineEvent::Info(vec![
        InfoParam::Score(12, ScoreKind::CpExact),
        pv(&["1e2d"]),
    ]));
    assert_eq!(
        session.step(played("1e2d")),
        SearchStep::Done(Vec::new(), SearchResult::Move("1e2d".to_string()))
    );
}

#[test]
fn a_rank_never_gets_the_moves_of_another() {
    let mut session = SearchSession::new();
    session.step(update(1, 50, ScoreKind::CpExact, &["1e2d"]));
    session.step(EngineEvent::Info(vec![
        InfoParam::MultiPv(2),
        InfoParam::Score(-300, ScoreKind::CpExact),
    ]));
    assert_eq!(
        session.step(played("1e2d")),
        SearchStep::Done(
            vec![line(1, 50, &["1e2d"])],
            SearchResult::Move("1e2d".to_string())
        )
    );
}

#[test]
fn nothing_carries_over_from_one_update_to_the_next() {
    let mut session = SearchSession::new();
    session.step(update(1, 50, ScoreKind::CpExact, &["1e2d"]));
    session.step(EngineEvent::Info(vec![InfoParam::Score(-2, ScoreKind::MateSignOnly)]));
    session.step(EngineEvent::Info(vec![InfoParam::MultiPv(4)]));
    session.step(EngineEvent::Info(vec![pv(&["3a2b"])]));
    session.step(EngineEvent::Info(vec![InfoParam::MultiPv(4), pv(&["2a2b"])]));
    assert_eq!(
        session.step(played("1e2d")),
        SearchStep::Done(
            vec![line(1, 50, &["1e2d"]), line(4, 0, &["2a2b"])],
            SearchResult::Move("1e2d".to_string())
        )
    );
}

#[test]
fn the_later_of_two_items_counts() {
    let mut session = SearchSession::new();
    session.step(EngineEvent::Info(vec![
        pv(&["3a2b"]),
        InfoParam::MultiPv(5),
        InfoParam::Score(7, ScoreKind::CpExact),
        InfoParam::MultiPv(4),
        InfoParam::Score(-1, ScoreKind::MateExact),
        pv(&["2a2b", "2e2d"]),
    ]));
    assert_eq!(
        session.step(played("1e2d")),
        SearchStep::Done(
            vec![line(4, -10000, &["2a2b", "2e2d"])],
            SearchResult::Move("1e2d".to_string())
        )
    );
}

#[test]
fn a_bare_resignation_is_retried_once() {
    let mut session = SearchSession::new();
    assert_eq!(
        session.step(EngineEvent::BestMove(BestMove::Resign)),
        SearchStep::Retry(50)
    );
    assert_eq!(
        session.step(EngineEvent::BestMove(BestMove::Resign)),
        SearchStep::Done(Vec::new(), SearchResult::Resign)
    );
    assert_eq!(
        session.step(EngineEvent::BestMove(BestMove::Resign)),
        SearchStep::Retry(50)
    );
}

#[test]
fn the_retry_starts_with_nothing_collected() {
    let mut session = SearchSession::new();
    session.step(EngineEvent::Info(vec![
        InfoParam::MultiPv(2),
        InfoParam::Score(9, ScoreKind::CpExact),
    ]));
    assert_eq!(
        session.step(EngineEvent::BestMove(BestMove::Resign)),
        SearchStep::Retry(ESCALATED_TIME_MS)
    );
    session.step(EngineEvent::Info(vec![InfoParam::MultiPv(3), pv(&["2a2b"])]));
    assert_eq!(
        session.step(EngineEvent::BestMove(BestMove::Resign)),
        SearchStep::Done(vec![line(3, 0, &["2a2b"])], SearchResult::Resign)
    );
}

#[test]
fn a_resignation_with_lines_is_not_retried() {
    let mut session = SearchSession::new();
    session.step(update(1, -10, ScoreKind::CpExact, &["1e2d"]));
    assert_eq!(
        session.step(EngineEvent::BestMove(BestMove::Resign)),
        SearchStep::Done(vec![line(1, -10, &["1e2d"])], SearchResult::Resign)
    );
}

#[test]
fn silence_fails_the_search() {
    let mut session = SearchSession::new();
    session.step(update(1, 50, ScoreKind::CpExact, &["1e2d"]));
    assert_eq!(session.step(EngineEvent::Silence), SearchStep::Failed);
    assert_eq!(
        session.step(played("1e2d")),
        SearchStep::Done(Vec::new(), SearchResult::Move("1e2d".to_string()))
    );
}
