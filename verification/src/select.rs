//! The two ways of choosing a move from what a search brought: the strong
//! side takes the engine's first line, the weak side the line that the engine
//! thinks worst.

use crate::protocol::{line_views, PvInfo, PvInfoView, SearchResult, SearchResultView};
use vstd::prelude::*;

verus! {

/// The view of a choice.
pub open spec fn choice_view(c: Option<SearchResult>) -> Option<SearchResultView> {
    match c {
        Some(r) => Some(r@),
        None => None,
    }
}

/// What is chosen where the lines give no move: the move or the checkmate that
/// ended the search, and nothing after a resignation.
pub open spec fn fallback(result: SearchResultView) -> Option<SearchResultView> {
    match result {
        SearchResultView::Move(m) => Some(SearchResultView::Move(m)),
        SearchResultView::Checkmate => Some(SearchResultView::Checkmate),
        SearchResultView::Resign => None,
    }
}

/// The line holds at least one move.
pub open spec fn has_moves(line: PvInfoView) -> bool {
    line.moves.len() > 0
}

/// Line `i` is the first line of rank `rank`.
pub open spec fn first_of_rank(lines: Seq<PvInfoView>, rank: int, i: int) -> bool {
    &&& 0 <= i < lines.len()
    &&& lines[i].multipv == rank
    &&& forall|j: int| 0 <= j < i ==> (#[trigger] lines[j]).multipv != rank
}

/// Line `i` is the worst line: it holds a move, no line that holds a move has
/// a lower score, and every such line before it has a higher one.
pub open spec fn is_worst(lines: Seq<PvInfoView>, i: int) -> bool {
    &&& 0 <= i < lines.len()
    &&& has_moves(lines[i])
    &&& forall|j: int|
        0 <= j < lines.len() && has_moves(#[trigger] lines[j]) ==> lines[i].score <= lines[j].score
    &&& forall|j: int| 0 <= j < i && has_moves(#[trigger] lines[j]) ==> lines[i].score < lines[j].score
}

/// The choice of the strong side: the first move of the first line of rank 1,
/// and the fallback where there is no such line or it holds no move.
pub open spec fn best_choice(lines: Seq<PvInfoView>, result: SearchResultView) -> Option<
    SearchResultView,
> {
    if exists|i: int| first_of_rank(lines, 1, i) {
        let i = choose|i: int| first_of_rank(lines, 1, i);
        if has_moves(lines[i]) {
            Some(SearchResultView::Move(lines[i].moves[0]))
        } else {
            fallback(result)
        }
    } else {
        fallback(result)
    }
}

/// The choice of the weak side: the first move of the worst line, and the
/// fallback where no line holds a move.
pub open spec fn worst_choice(lines: Seq<PvInfoView>, result: SearchResultView) -> Option<
    SearchResultView,
> {
    if exists|i: int| is_worst(lines, i) {
        let i = choose|i: int| is_worst(lines, i);
        Some(SearchResultView::Move(lines[i].moves[0]))
    } else {
        fallback(result)
    }
}

/// There is at most one first line of a rank.
pub proof fn lemma_first_of_rank_unique(lines: Seq<PvInfoView>, rank: int, i: int, j: int)
    requires
        first_of_rank(lines, rank, i),
        first_of_rank(lines, rank, j),
    ensures
        i == j,
{
}

/// There is at most one worst line.
pub proof fn lemma_worst_unique(lines: Seq<PvInfoView>, i: int, j: int)
    requires
        is_worst(lines, i),
        is_worst(lines, j),
    ensures
        i == j,
{
}

/// The worst line among the first lines stays the worst when one more line
/// is taken in, unless that line holds a move and has a lower score: then it
/// is the worst.
pub proof fn lemma_worst_extends(lines: Seq<PvInfoView>, w: int)
    requires
        lines.len() > 0,
        is_worst(lines.drop_last(), w),
    ensures
        is_worst(
            lines,
            if has_moves(lines.last()) && lines.last().score < lines[w].score {
                lines.len() - 1
            } else {
                w
            },
        ),
{
    let init = lines.drop_last();
    assert forall|j: int| 0 <= j < init.len() && has_moves(#[trigger] lines[j]) implies has_moves(
        init[j],
    ) by {}
    assert(init[w] == lines[w]);
}

/// Where a line holds a move, there is a worst line.
pub proof fn lemma_worst_exists(lines: Seq<PvInfoView>, k: int)
    requires
        0 <= k < lines.len(),
        has_moves(lines[k]),
    ensures
        exists|i: int| is_worst(lines, i),
    decreases lines.len(),
{
    let init = lines.drop_last();
    let n = lines.len() - 1;
    if exists|j: int| 0 <= j < n && has_moves(lines[j]) {
        let j = choose|j: int| 0 <= j < n && has_moves(lines[j]);
        assert(init[j] == lines[j]);
        lemma_worst_exists(init, j);
        lemma_worst_extends(lines, choose|i: int| is_worst(init, i));
    } else {
        assert(is_worst(lines, n));
    }
}

/// The strong side always plays the first move of the first line of rank 1,
/// where that line holds a move.
pub proof fn lemma_best_takes_rank_one(lines: Seq<PvInfoView>, result: SearchResultView, i: int)
    requires
        first_of_rank(lines, 1, i),
        has_moves(lines[i]),
    ensures
        best_choice(lines, result) == Some(SearchResultView::Move(lines[i].moves[0])),
{
    let k = choose|k: int| first_of_rank(lines, 1, k);
    lemma_first_of_rank_unique(lines, 1, i, k);
}

/// The weak side always plays the first move of the worst line, where there is
/// one.
pub proof fn lemma_worst_takes_minimum(lines: Seq<PvInfoView>, result: SearchResultView, i: int)
    requires
        is_worst(lines, i),
    ensures
        worst_choice(lines, result) == Some(SearchResultView::Move(lines[i].moves[0])),
{
    let k = choose|k: int| is_worst(lines, k);
    lemma_worst_unique(lines, i, k);
}

/// Neither side ever chooses to resign: after a resignation that left no
/// usable line there is no choice at all.
pub proof fn lemma_choice_is_no_resignation(lines: Seq<PvInfoView>, result: SearchResultView)
    ensures
        best_choice(lines, result) != Some(SearchResultView::Resign),
        worst_choice(lines, result) != Some(SearchResultView::Resign),
{
}

/// What is chosen where the lines give no move.
pub fn fall_back(result: SearchResult) -> (choice: Option<SearchResult>)
    ensures
        choice_view(choice) == fallback(result@),
{
    match result {
        SearchResult::Move(best_move) => Some(SearchResult::Move(best_move)),
        SearchResult::Checkmate => Some(SearchResult::Checkmate),
        SearchResult::Resign => None,
    }
}

/// Chooses for the strong side.
pub fn select_best(pv_infos: &Vec<PvInfo>, result: SearchResult) -> (choice: Option<SearchResult>)
    ensures
        choice_view(choice) == best_choice(line_views(pv_infos@), result@),
{
    let ghost lines = line_views(pv_infos@);
    let n: usize = pv_infos.len();
    let mut i: usize = 0;
    while i < n
        invariant
            n == pv_infos.len(),
            i <= n,
            lines == line_views(pv_infos@),
            forall|j: int| 0 <= j < i ==> (#[trigger] lines[j]).multipv != 1,
        decreases n - i,
    {
        if pv_infos[i].multipv == 1 {
            assert(first_of_rank(lines, 1, i as int));
            proof {
                let k = choose|k: int| first_of_rank(lines, 1, k);
                lemma_first_of_rank_unique(lines, 1, i as int, k);
            }
            if pv_infos[i].moves.len() > 0 {
                let mv: String = pv_infos[i].moves[0].clone();
                return Some(SearchResult::Move(mv));
            }
            return fall_back(result);
        }
        i += 1;
    }
    fall_back(result)
}

/// Chooses for the weak side.
pub fn select_worst(pv_infos: &Vec<PvInfo>, result: SearchResult) -> (choice: Option<SearchResult>)
    ensures
        choice_view(choice) == worst_choice(line_views(pv_infos@), result@),
{
    let ghost lines = line_views(pv_infos@);
    let n: usize = pv_infos.len();
    let mut worst: Option<usize> = None;
    let mut i: usize = 0;
    while i < n
        invariant
            n == pv_infos.len(),
            i <= n,
            lines == line_views(pv_infos@),
            match worst {
                Some(w) => w < i && is_worst(lines.take(i as int), w as int),
                None => forall|j: int| 0 <= j < i ==> !has_moves(#[trigger] lines[j]),
            },
        decreases n - i,
    {
        let ghost seen = lines.take(i + 1);
        assert(seen.drop_last() =~= lines.take(i as int));
        assert(seen.last() == pv_infos@[i as int]@);
        match worst {
            Some(w) => {
                proof {
                    lemma_worst_extends(seen, w as int);
                }
                if pv_infos[i].moves.len() > 0 && pv_infos[i].score < pv_infos[w].score {
                    worst = Some(i);
                }
            },
            None => {
                if pv_infos[i].moves.len() > 0 {
                    assert(is_worst(seen, i as int));
                    worst = Some(i);
                }
            },
        }
        i += 1;
    }
    assert(lines.take(n as int) =~= lines);
    match worst {
        Some(w) => {
            proof {
                lemma_worst_takes_minimum(lines, result@, w as int);
            }
            let mv: String = pv_infos[w].moves[0].clone();
            Some(SearchResult::Move(mv))
        },
        None => {
            assert(!exists|k: int| is_worst(lines, k));
            fall_back(result)
        },
    }
}

} // verus!
