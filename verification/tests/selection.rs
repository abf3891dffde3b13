use tsume_generator::protocol::{PvInfo, SearchResult};
use tsume_generator::select::{fall_back, select_best, select_worst};

fn line(multipv: i32, score: i32, moves: &[&str]) -> PvInfo {
    PvInfo {
        multipv,
        score,
        moves: moves.iter().map(|m| m.to_string()).collect(),
    }
}

fn played(m: &str) -> Option<SearchResult> {
    Some(SearchResult::Move(m.to_string()))
}

#[test]
fn best_is_the_first_move_of_rank_one() {
    let lines = vec![line(2, 900, &["3a2b"]), line(1, 50, &["1e2d", "2a2b"])];
    assert_eq!(
        select_best(&lines, SearchResult::Move("9z9z".to_string())),
        played("1e2d")
    );
    assert_eq!(select_best(&lines, SearchResult::Resign), played("1e2d"));
    assert_eq!(select_best(&lines, SearchResult::Checkmate), played("1e2d"));
}

#[test]
fn best_falls_back_without_rank_one() {
    let lines = vec![line(2, 900, &["3a2b"]), line(3, 50, &["1e2d"])];
    assert_eq!(
        select_best(&lines, SearchResult::Move("2c2d".to_string())),
        played("2c2d")
    );
    assert_eq!(
        select_best(&lines, SearchResult::Checkmate),
        Some(SearchResult::Checkmate)
    );
    assert_eq!(select_best(&lines, SearchResult::Resign), None);
}

#[test]
fn best_falls_back_when_rank_one_is_empty() {
    let lines = vec![line(1, 10, &[]), line(1, 20, &["1e2d"])];
    assert_eq!(
        select_best(&lines, SearchResult::Move("2c2d".to_string())),
        played("2c2d")
    );
    assert_eq!(select_best(&lines, SearchResult::Resign), None);
}

#[test]
fn worst_is_the_first_move_of_the_lowest_score() {
    let lines = vec![
        line(1, 50, &["1e2d"]),
        line(2, -300, &["3a2b", "1e2d"]),
        line(3, -10, &["2a2b"]),
    ];
    assert_eq!(
        select_worst(&lines, SearchResult::Move("1e2d".to_string())),
        played("3a2b")
    );
    assert_eq!(select_worst(&lines, SearchResult::Resign), played("3a2b"));
}

#[test]
fn worst_takes_the_first_of_equal_scores() {
    let lines = vec![
        line(1, 7, &["1a1b"]),
        line(2, -5, &["2a2b"]),
        line(3, -5, &["3a3b"]),
    ];
    assert_eq!(select_worst(&lines, SearchResult::Resign), played("2a2b"));
}

#[test]
fn worst_passes_over_lines_without_moves() {
    let lines = vec![
        line(1, -10000, &[]),
        line(2, 40, &["2a2b"]),
        line(3, i32::MIN, &[]),
        line(4, 39, &["3a3b"]),
    ];
    assert_eq!(select_worst(&lines, SearchResult::Checkmate), played("3a3b"));
}

#[test]
fn worst_falls_back_without_moves() {
    let lines = vec![line(1, 5, &[]), line(2, 3, &[])];
    assert_eq!(
        select_worst(&lines, SearchResult::Move("2c2d".to_string())),
        played("2c2d")
    );
    assert_eq!(
        select_worst(&lines, SearchResult::Checkmate),
        Some(SearchResult::Checkmate)
    );
    assert_eq!(select_worst(&lines, SearchResult::Resign), None);
    let none: Vec<PvInfo> = Vec::new();
    assert_eq!(select_worst(&none, SearchResult::Resign), None);
    assert_eq!(select_best(&none, SearchResult::Resign), None);
}

#[test]
fn selection_gives_the_same_choice_every_time() {
    let lines = vec![line(1, 50, &["1e2d"]), line(2, -300, &["3a2b"])];
    for _ in 0..3 {
        assert_eq!(select_best(&lines, SearchResult::Resign), played("1e2d"));
        assert_eq!(select_worst(&lines, SearchResult::Resign), played("3a2b"));
    }
}

#[test]
fn fallback_keeps_move_and_mate() {
    assert_eq!(fall_back(SearchResult::Move("1a1b".to_string())), played("1a1b"));
    assert_eq!(fall_back(SearchResult::Checkmate), Some(SearchResult::Checkmate));
    assert_eq!(fall_back(SearchResult::Resign), None);
}
