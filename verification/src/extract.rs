//! One puzzle: games are simulated until one ends with a mate, but not more
//! often than a fixed number of times.

use crate::game::{GameResult, GameResultView};
use vstd::prelude::*;

verus! {

/// The number of games that are tried for one puzzle.
pub const MAX_ATTEMPTS: usize = 10;

/// What is to be done after a game.
#[derive(Debug, Clone, PartialEq, Eq)]
pub enum Verdict {
    /// The game gave this puzzle.
    Accept(String),
    /// Simulate another game.
    Retry,
    /// There is no puzzle to be had.
    GiveUp,
}

pub enum VerdictView {
    Accept(Seq<char>),
    Retry,
    GiveUp,
}

impl View for Verdict {
    type V = VerdictView;

    open spec fn view(&self) -> VerdictView {
        match self {
            Verdict::Accept(sfen) => VerdictView::Accept(sfen@),
            Verdict::Retry => VerdictView::Retry,
            Verdict::GiveUp => VerdictView::GiveUp,
        }
    }
}

/// The number of games that may still be tried after a game with the result
/// `result`, where `left` could be tried before it, and what is to be done.
///
/// A mate is accepted. Any other result is passed over: another game is
/// tried, unless this was the last. When the puzzle is settled either way,
/// the count starts afresh.
pub open spec fn extract_next(left: nat, result: GameResultView) -> (nat, VerdictView) {
    match result {
        GameResultView::Checkmate(sfen) => (MAX_ATTEMPTS as nat, VerdictView::Accept(sfen)),
        _ => if left <= 1 {
            (MAX_ATTEMPTS as nat, VerdictView::GiveUp)
        } else {
            ((left - 1) as nat, VerdictView::Retry)
        },
    }
}

/// How a puzzle is settled by the games whose results are `results`, in this
/// order, where `left` games may be tried: `None` while it is not settled.
pub open spec fn settled(left: nat, results: Seq<GameResultView>) -> Option<VerdictView>
    decreases results.len(),
{
    if results.len() == 0 {
        None
    } else {
        let (next, verdict) = extract_next(left, results[0]);
        match verdict {
            VerdictView::Retry => settled(next, results.skip(1)),
            _ => Some(verdict),
        }
    }
}

/// As many games as may be tried, none of which ends with a mate, give no
/// puzzle.
pub proof fn lemma_exhaustion_gives_up(left: nat, results: Seq<GameResultView>)
    requires
        left >= 1,
        results.len() == left,
        forall|i: int| 0 <= i < results.len() ==> !(#[trigger] results[i] is Checkmate),
    ensures
        settled(left, results) == Some(VerdictView::GiveUp),
    decreases results.len(),
{
    if left > 1 {
        let rest = results.skip(1);
        assert forall|i: int| 0 <= i < rest.len() implies !(#[trigger] rest[i] is Checkmate) by {
            assert(rest[i] == results[i + 1]);
        }
        lemma_exhaustion_gives_up((left - 1) as nat, rest);
    }
}

/// The first game that ends with a mate gives the puzzle, where it is among
/// the games that may be tried.
pub proof fn lemma_first_mate_is_accepted(left: nat, results: Seq<GameResultView>, k: int)
    requires
        0 <= k < results.len(),
        k < left,
        results[k] is Checkmate,
        forall|i: int| 0 <= i < k ==> !(#[trigger] results[i] is Checkmate),
    ensures
        settled(left, results) == Some(VerdictView::Accept(results[k]->Checkmate_0)),
    decreases k,
{
    if k > 0 {
        let rest = results.skip(1);
        assert(rest[k - 1] == results[k]);
        assert forall|i: int| 0 <= i < k - 1 implies !(#[trigger] rest[i] is Checkmate) by {
            assert(rest[i] == results[i + 1]);
        }
        lemma_first_mate_is_accepted((left - 1) as nat, rest, k - 1);
    }
}

/// The counter of the games tried for one puzzle.
#[derive(Debug, Clone)]
pub struct Extractor {
    left: usize,
}

impl View for Extractor {
    type V = nat;

    closed spec fn view(&self) -> nat {
        self.left as nat
    }
}

impl Extractor {
    /// A counter with all games still to be tried.
    pub fn new() -> (e: Extractor)
        ensures
            e@ == MAX_ATTEMPTS,
    {
        Extractor { left: MAX_ATTEMPTS }
    }

    /// Takes in the result of a game and says what is to be done next.
    pub fn record(&mut self, result: GameResult) -> (verdict: Verdict)
        ensures
            (final(self)@, verdict@) == extract_next(old(self)@, result@),
    {
        match result {
            GameResult::Checkmate(sfen) => {
                self.left = MAX_ATTEMPTS;
                Verdict::Accept(sfen)
            },
            GameResult::NoResult | GameResult::Error => {
                if self.left <= 1 {
                    self.left = MAX_ATTEMPTS;
                    Verdict::GiveUp
                } else {
                    self.left = self.left - 1;
                    Verdict::Retry
                }
            },
        }
    }
}

} // verus!
