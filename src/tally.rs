//! Vote choices, their weights, the per-subject tally and its classification.

use vstd::prelude::*;

verus! {

/// How believable a voter finds a subject's reported height.
#[derive(Clone, Copy, Debug, PartialEq, Eq, Structural)]
pub enum VoteChoice {
    DefinitelyYes,
    Yes,
    No,
    DefinitelyNo,
}

/// The confidence level derived from a tally.
#[derive(Clone, Copy, Debug, PartialEq, Eq, Structural)]
pub enum Confidence {
    Lie,
    ProbablyALie,
    Inconclusive,
    MightBeTrue,
    True,
}

/// The fixed weight of a choice.
pub open spec fn weight_of(vote: VoteChoice) -> int {
    match vote {
        VoteChoice::DefinitelyYes => 2,
        VoteChoice::Yes => 1,
        VoteChoice::No => -1,
        VoteChoice::DefinitelyNo => -2,
    }
}

/// The sum of the weights of a sequence of choices.
pub open spec fn sum_weights(votes: Seq<VoteChoice>) -> int
    decreases votes.len(),
{
    if votes.len() == 0 {
        0
    } else {
        sum_weights(votes.drop_last()) + weight_of(votes.last())
    }
}

/// Integer division rounding toward zero, for a positive divisor.
pub open spec fn div_toward_zero(a: int, b: int) -> int {
    if a >= 0 {
        a / b
    } else {
        -((-a) / b)
    }
}

/// The level that an average score maps to.
pub open spec fn confidence_of_score(score: int) -> Confidence {
    if score == -2 {
        Confidence::Lie
    } else if score == -1 {
        Confidence::ProbablyALie
    } else if score == 1 {
        Confidence::MightBeTrue
    } else if score == 2 {
        Confidence::True
    } else {
        Confidence::Inconclusive
    }
}

/// The classification of a tally with the given sum and count.
pub open spec fn classify_tally(sum: int, count: nat) -> Confidence {
    if count == 0 {
        Confidence::Inconclusive
    } else {
        confidence_of_score(div_toward_zero(sum, count as int))
    }
}

/// Adding a vote adds its weight to the sum.
pub proof fn lemma_sum_weights_push(votes: Seq<VoteChoice>, vote: VoteChoice)
    ensures
        sum_weights(votes.push(vote)) == sum_weights(votes) + weight_of(vote),
{
    assert(votes.push(vote).drop_last() =~= votes);
}

/// Each weight lies in [-2, 2], so a sum of n weights lies in [-2n, 2n].
pub proof fn lemma_sum_weights_bounded(votes: Seq<VoteChoice>)
    ensures
        -2 * votes.len() <= sum_weights(votes) <= 2 * votes.len(),
    decreases votes.len(),
{
    if votes.len() > 0 {
        lemma_sum_weights_bounded(votes.drop_last());
    }
}

/// The integer weight of a vote.
pub fn weight(vote: VoteChoice) -> (r: i64)
    ensures
        r == weight_of(vote),
{
    match vote {
        VoteChoice::DefinitelyYes => 2,
        VoteChoice::Yes => 1,
        VoteChoice::No => -1,
        VoteChoice::DefinitelyNo => -2,
    }
}

/// The running tally of one subject: the sum of the weights cast and the
/// number of votes.
#[derive(Clone, Copy, Debug, PartialEq, Eq, Structural)]
pub struct Votes {
    weighted_sum: i64,
    total_votes: u32,
}

impl Votes {
    /// The sum of the weights cast.
    pub closed spec fn sum(&self) -> int {
        self.weighted_sum as int
    }

    /// The number of votes cast.
    pub closed spec fn count(&self) -> nat {
        self.total_votes as nat
    }

    /// The sum never leaves what `count` votes can add up to.
    pub open spec fn wf(&self) -> bool {
        -2 * self.count() <= self.sum() <= 2 * self.count()
    }

    /// An empty tally.
    pub fn new() -> (r: Votes)
        ensures
            r.sum() == 0,
            r.count() == 0,
            r.wf(),
    {
        Votes { weighted_sum: 0, total_votes: 0 }
    }

    pub fn weighted_sum(&self) -> (r: i64)
        ensures
            r == self.sum(),
    {
        self.weighted_sum
    }

    pub fn total_votes(&self) -> (r: u32)
        ensures
            r == self.count(),
    {
        self.total_votes
    }

    /// Adds one vote: the count grows by one and the sum by the vote's weight.
    pub fn record(&mut self, vote: VoteChoice)
        requires
            old(self).wf(),
            old(self).count() < u32::MAX,
        ensures
            final(self).count() == old(self).count() + 1,
            final(self).sum() == old(self).sum() + weight_of(vote),
            final(self).wf(),
    {
        self.total_votes = self.total_votes + 1;
        self.weighted_sum = self.weighted_sum + weight(vote);
    }

    /// The confidence level of this tally; the average score is the sum
    /// divided by the count, rounded toward zero.
    pub fn confidence(&self) -> (r: Confidence)
        requires
            self.wf(),
        ensures
            r == classify_tally(self.sum(), self.count()),
    {
        if self.total_votes == 0 {
            return Confidence::Inconclusive;
        }
        let count: u64 = self.total_votes as u64;
        let score: i64 = if self.weighted_sum >= 0 {
            ((self.weighted_sum as u64) / count) as i64
        } else {
            -(((-self.weighted_sum) as u64 / count) as i64)
        };
        if score == -2 {
            Confidence::Lie
        } else if score == -1 {
            Confidence::ProbablyALie
        } else if score == 1 {
            Confidence::MightBeTrue
        } else if score == 2 {
            Confidence::True
        } else {
            Confidence::Inconclusive
        }
    }
}

} // verus!
