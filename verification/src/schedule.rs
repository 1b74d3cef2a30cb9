//! When a word comes up for review again, and which words a review session
//! asks the store for.
use vstd::prelude::*;
use vstd::arithmetic::power2::{pow2, lemma2_to64, lemma2_to64_rest, lemma_pow2_strictly_increases, lemma_pow2_unfold};
use crate::clock::{during_today, during_yesterday, is_time_text, is_today_window, is_yesterday_window, now_str};
use crate::view::{ExamRs, ReviewTy};

verus! {

/// Seconds in the first review interval, twelve hours.
pub open spec fn first_interval_secs() -> int {
    12int * 60 * 60
}

/// Seconds until the next review after a success, for a word whose current run
/// of successes is `times` long: twelve hours, doubled for each success of the run.
pub open spec fn review_interval(times: nat) -> int {
    first_interval_secs() * pow2(times)
}

/// Seconds until the next review of a word that was just answered right, its
/// current run of successes being `current_learned_times` long; the run length
/// is taken as a `u32` (its low 32 bits).
pub fn review_interval_secs(current_learned_times: i64) -> (r: u64)
    requires
        (#[verifier::truncate] (current_learned_times as u32)) <= 48,
    ensures
        r == review_interval((#[verifier::truncate] (current_learned_times as u32)) as nat),
{
    let n = #[verifier::truncate] (current_learned_times as u32);
    let mut power: u64 = 1;
    let mut i: u32 = 0;
    proof {
        lemma2_to64();
        lemma2_to64_rest();
    }
    while i < n
        invariant
            i <= n <= 48,
            power == pow2(i as nat),
            pow2(48) == 0x1_0000_0000_0000,
        decreases n - i,
    {
        proof {
            lemma_pow2_unfold((i + 1) as nat);
            if i + 1 < 48 {
                lemma_pow2_strictly_increases((i + 1) as nat, 48);
            }
        }
        power = power * 2;
        i = i + 1;
    }
    proof {
        if n < 48 {
            lemma_pow2_strictly_increases(n as nat, 48);
        }
    }
    let interval_hour = 12 * power;
    let r = interval_hour * 60 * 60;
    assert(power == pow2(n as nat));
    assert(r == 43200 * pow2(n as nat));
    r
}

/// The first success of a run brings the word back after twelve hours, and
/// each further success of the run doubles the wait.
pub proof fn lemma_review_interval_doubles(times: nat)
    ensures
        review_interval(0) == 43200,
        review_interval(times + 1) == 2 * review_interval(times),
{
    lemma2_to64();
    lemma_pow2_unfold(times + 1);
    assert(((times + 1) - 1) as nat == times);
    assert(pow2(times + 1) == 2 * pow2(times));
    assert(review_interval(times + 1) == 43200 * pow2(times + 1));
    assert(review_interval(times) == 43200 * pow2(times));
}

impl ExamRs {
    /// The result kept in the test record: 1 for a success, 0 for a failure.
    pub fn record_result(self) -> (r: i64)
        ensures
            r == (if self is Success { 1i64 } else { 0i64 }),
    {
        match self {
            ExamRs::Success => 1,
            ExamRs::Fail => 0,
        }
    }
}

/// The listing a review session asks the store for.
pub enum ReviewQuery {
    /// Words with a right answer and no wrong answer recorded strictly between
    /// `start` and `end`.
    RightWords { start: String, end: String },
    /// Words with a wrong answer recorded strictly between `start` and `end`.
    ErrorWords { start: String, end: String },
    /// Words whose next review time is below `before`, earliest first, at most `limit`.
    DueWords { before: String, limit: i32 },
}

/// The listing for a review session of kind `ty`: the words right or wrong
/// today or yesterday (windows read from the clock), or at most `limit` words
/// due before now.
pub fn review_query(ty: ReviewTy, limit: i32) -> (r: ReviewQuery)
    ensures
        ty is Today ==> (r matches ReviewQuery::RightWords { start, end } && is_today_window(
            start@,
            end@,
        ) && start@.len() == end@.len() && start@.take(start@.len() - 8) == end@.take(
            end@.len() - 8,
        )),
        ty is Yesterday ==> (r matches ReviewQuery::RightWords { start, end }
            && is_yesterday_window(start@, end@)),
        ty is TodayError ==> (r matches ReviewQuery::ErrorWords { start, end } && is_today_window(
            start@,
            end@,
        ) && start@.len() == end@.len() && start@.take(start@.len() - 8) == end@.take(
            end@.len() - 8,
        )),
        ty is YesterdayError ==> (r matches ReviewQuery::ErrorWords { start, end }
            && is_yesterday_window(start@, end@)),
        ty is Review ==> (r matches ReviewQuery::DueWords { before, limit: l } && is_time_text(
            before@,
        ) && l == limit),
{
    match ty {
        ReviewTy::Today => {
            let (start, end) = during_today();
            ReviewQuery::RightWords { start, end }
        },
        ReviewTy::Yesterday => {
            let (start, end) = during_yesterday();
            ReviewQuery::RightWords { start, end }
        },
        ReviewTy::TodayError => {
            let (start, end) = during_today();
            ReviewQuery::ErrorWords { start, end }
        },
        ReviewTy::YesterdayError => {
            let (start, end) = during_yesterday();
            ReviewQuery::ErrorWords { start, end }
        },
        ReviewTy::Review => ReviewQuery::DueWords { before: now_str(), limit },
    }
}

} // verus!
