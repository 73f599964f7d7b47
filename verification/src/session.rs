//! Sessions of three landing attempts, their scores and their statistics.
//!
//! Scores are in thousandths of a point, fuel in thousandths of a percent
//! and times in milliseconds.

use crate::fixed::clamp_u64;
use crate::surface::LandingZoneDifficulty;
use vstd::prelude::*;

verus! {

/// Number of attempts in a session.
pub const MAX_ATTEMPTS: usize = 3;

/// Time, in milliseconds, under which a landing earns the time bonus.
pub const FAST_LANDING_MS: u64 = 60_000;

/// How a landing attempt ended, if it has.
#[derive(Debug, Clone, Copy, PartialEq, Eq, Structural)]
pub enum AttemptResult {
    Success,
    Failure,
    InProgress,
}

/// One landing attempt of a session.
#[derive(Debug, Clone, Copy)]
pub struct LandingAttempt {
    pub result: AttemptResult,
    /// Score, in thousandths of a point.
    pub score: u64,
    /// Fuel left, in thousandths of a percent.
    pub fuel_remaining: u32,
    pub landing_zone: Option<LandingZoneDifficulty>,
    /// Duration, in milliseconds.
    pub time_taken: u64,
}

/// Time bonus in tenths: 1.2 for a landing in under a minute, else 1.0.
pub open spec fn time_bonus_tenths(time: int) -> int {
    if time < FAST_LANDING_MS {
        12
    } else {
        10
    }
}

/// Score of a successful landing, in thousandths of a point: a thousand
/// points, times two over the zone's width multiplier, times one plus the
/// share of fuel left, times the time bonus; rounded down.
pub open spec fn landing_score(zone: LandingZoneDifficulty, fuel: int, time: int) -> int {
    2000 * (100_000 + fuel) * time_bonus_tenths(time) / zone.width_per_mille()
}

/// Score of an attempt: that of the landing for a success on a zone, else
/// nothing.
pub open spec fn attempt_score(
    result: AttemptResult,
    zone: Option<LandingZoneDifficulty>,
    fuel: int,
    time: int,
) -> int {
    if result == AttemptResult::Success && zone is Some {
        landing_score(zone->0, fuel, time)
    } else {
        0
    }
}

/// The attempt that has not ended.
pub open spec fn attempt_in_progress() -> LandingAttempt {
    LandingAttempt {
        result: AttemptResult::InProgress,
        score: 0,
        fuel_remaining: 0,
        landing_zone: None,
        time_taken: 0,
    }
}

/// The attempt that ended as given, with its score.
pub open spec fn completed_attempt(
    result: AttemptResult,
    zone: Option<LandingZoneDifficulty>,
    fuel: u32,
    time: u64,
) -> LandingAttempt {
    LandingAttempt {
        result,
        score: attempt_score(result, zone, fuel as int, time as int) as u64,
        fuel_remaining: fuel,
        landing_zone: zone,
        time_taken: time,
    }
}

/// A landing score fits in 47 bits, whatever the fuel and the time.
pub proof fn lemma_landing_score_bounded(zone: LandingZoneDifficulty, fuel: u32, time: u64)
    ensures
        0 <= landing_score(zone, fuel as int, time as int) <= 0x7FFF_FFFF_FFFF,
{
    let bonus = time_bonus_tenths(time as int);
    assert(0 <= 2000 * (100_000 + fuel) * bonus <= 2000 * (100_000 + 0xFFFF_FFFF) * 12)
        by (nonlinear_arith)
        requires
            0 <= fuel <= 0xFFFF_FFFF,
            10 <= bonus <= 12,
    ;
}

impl LandingAttempt {
    /// Whether the score is the one that the attempt's own record gives.
    pub open spec fn is_scored(self) -> bool {
        self.score == attempt_score(
            self.result,
            self.landing_zone,
            self.fuel_remaining as int,
            self.time_taken as int,
        )
    }

    /// An attempt that has not ended.
    pub fn new_in_progress() -> (a: LandingAttempt)
        ensures
            a == attempt_in_progress(),
    {
        LandingAttempt {
            result: AttemptResult::InProgress,
            score: 0,
            fuel_remaining: 0,
            landing_zone: None,
            time_taken: 0,
        }
    }

    /// An attempt that ended as given, with its score.
    pub fn new_completed(
        result: AttemptResult,
        zone_difficulty: Option<LandingZoneDifficulty>,
        fuel_remaining_percent: u32,
        time_taken: u64,
    ) -> (a: LandingAttempt)
        ensures
            a == completed_attempt(result, zone_difficulty, fuel_remaining_percent, time_taken),
            a.is_scored(),
    {
        proof {
            if zone_difficulty is Some {
                lemma_landing_score_bounded(zone_difficulty->0, fuel_remaining_percent, time_taken);
            }
        }
        let score: u64 = match zone_difficulty {
            Some(zone) => {
                if result == AttemptResult::Success {
                    Self::calculate_score(zone, fuel_remaining_percent, time_taken)
                } else {
                    0
                }
            },
            None => 0,
        };
        LandingAttempt {
            result,
            score,
            fuel_remaining: fuel_remaining_percent,
            landing_zone: zone_difficulty,
            time_taken,
        }
    }

    /// Score of a successful landing on a zone of the given difficulty, with
    /// the given fuel left and time taken.
    pub fn calculate_score(
        zone_difficulty: LandingZoneDifficulty,
        fuel_remaining_percent: u32,
        time_taken: u64,
    ) -> (score: u64)
        ensures
            score == landing_score(zone_difficulty, fuel_remaining_percent as int, time_taken as int),
    {
        let bonus: u64 = if time_taken < FAST_LANDING_MS {
            12
        } else {
            10
        };
        let fuel_factor: u64 = 100_000 + fuel_remaining_percent as u64;
        assert(2000 * fuel_factor * bonus <= 2000 * (100_000 + 0xFFFF_FFFF) * 12) by (nonlinear_arith)
            requires
                0 <= fuel_factor <= 100_000 + 0xFFFF_FFFF,
                0 <= bonus <= 12,
        ;
        assert(2000 * fuel_factor <= 2000 * (100_000 + 0xFFFF_FFFF)) by (nonlinear_arith)
            requires
                0 <= fuel_factor <= 100_000 + 0xFFFF_FFFF,
        ;
        2000 * fuel_factor * bonus / (zone_difficulty.width_multiplier() as u64)
    }
}

/// Number of attempts with the given result.
pub open spec fn count_result(attempts: Seq<LandingAttempt>, result: AttemptResult) -> nat
    decreases attempts.len(),
{
    if attempts.len() == 0 {
        0
    } else {
        count_result(attempts.drop_last(), result) + if attempts.last().result == result {
            1nat
        } else {
            0nat
        }
    }
}

/// Fuel left over all successful attempts together.
pub open spec fn fuel_of_successes(attempts: Seq<LandingAttempt>) -> nat
    decreases attempts.len(),
{
    if attempts.len() == 0 {
        0
    } else {
        fuel_of_successes(attempts.drop_last()) + if attempts.last().result == AttemptResult::Success {
            attempts.last().fuel_remaining as nat
        } else {
            0nat
        }
    }
}

/// Scores of all attempts together.
pub open spec fn sum_of_scores(attempts: Seq<LandingAttempt>) -> nat
    decreases attempts.len(),
{
    if attempts.len() == 0 {
        0
    } else {
        sum_of_scores(attempts.drop_last()) + attempts.last().score as nat
    }
}

/// Mean fuel left over the successful attempts, rounded down; zero where
/// there is none.
pub open spec fn mean_fuel_of_successes(attempts: Seq<LandingAttempt>) -> nat {
    if count_result(attempts, AttemptResult::Success) == 0 {
        0
    } else {
        fuel_of_successes(attempts) / count_result(attempts, AttemptResult::Success)
    }
}

/// Position of the best attempt: the successful attempt of highest score,
/// the last of them where several share it.
pub open spec fn best_index(attempts: Seq<LandingAttempt>) -> Option<int>
    decreases attempts.len(),
{
    if attempts.len() == 0 {
        None
    } else {
        let earlier = best_index(attempts.drop_last());
        if attempts.last().result == AttemptResult::Success && (earlier is None
            || attempts.last().score >= attempts[earlier->0].score) {
            Some(attempts.len() - 1)
        } else {
            earlier
        }
    }
}

/// What the best attempt is: a success whose score no success exceeds and no
/// later success reaches; there is none exactly when there is no success.
pub proof fn lemma_best_index(attempts: Seq<LandingAttempt>)
    ensures
        match best_index(attempts) {
            Some(b) => {
                &&& 0 <= b < attempts.len()
                &&& attempts[b].result == AttemptResult::Success
                &&& forall|i: int|
                    0 <= i < attempts.len() && (#[trigger] attempts[i]).result
                        == AttemptResult::Success ==> attempts[i].score <= attempts[b].score
                &&& forall|i: int|
                    b < i < attempts.len() && (#[trigger] attempts[i]).result
                        == AttemptResult::Success ==> attempts[i].score < attempts[b].score
            },
            None => forall|i: int|
                0 <= i < attempts.len() ==> (#[trigger] attempts[i]).result != AttemptResult::Success,
        },
    decreases attempts.len(),
{
    if attempts.len() > 0 {
        let front = attempts.drop_last();
        lemma_best_index(front);
        assert forall|i: int| 0 <= i < front.len() implies front[i] == attempts[i] by {}
        match best_index(attempts) {
            Some(b) => {
                assert forall|i: int|
                    0 <= i < attempts.len() && (#[trigger] attempts[i]).result
                        == AttemptResult::Success implies attempts[i].score <= attempts[b].score by {
                    if i < front.len() {
                        assert(front[i] == attempts[i]);
                    }
                }
                assert forall|i: int|
                    b < i < attempts.len() && (#[trigger] attempts[i]).result
                        == AttemptResult::Success implies attempts[i].score < attempts[b].score by {
                    if i < front.len() {
                        assert(front[i] == attempts[i]);
                    }
                }
            },
            None => {
                assert forall|i: int| 0 <= i < attempts.len() implies (#[trigger] attempts[i]).result
                    != AttemptResult::Success by {
                    if i < front.len() {
                        assert(front[i] == attempts[i]);
                    }
                }
            },
        }
    }
}

/// No more attempts have a given result than there are attempts.
pub proof fn lemma_count_result_bounded(attempts: Seq<LandingAttempt>, result: AttemptResult)
    ensures
        count_result(attempts, result) <= attempts.len(),
    decreases attempts.len(),
{
    if attempts.len() > 0 {
        lemma_count_result_bounded(attempts.drop_last(), result);
    }
}

/// The fuel of the successes is at most the largest fuel value for each.
pub proof fn lemma_fuel_of_successes_bounded(attempts: Seq<LandingAttempt>)
    ensures
        fuel_of_successes(attempts) <= count_result(attempts, AttemptResult::Success) * 0xFFFF_FFFF,
    decreases attempts.len(),
{
    if attempts.len() > 0 {
        lemma_fuel_of_successes_bounded(attempts.drop_last());
        let c = count_result(attempts.drop_last(), AttemptResult::Success);
        assert((c + 1) * 0xFFFF_FFFF == c * 0xFFFF_FFFF + 0xFFFF_FFFF) by (nonlinear_arith);
    }
}

/// The rating of a session with the given number of successes and mean fuel
/// left over them.
pub open spec fn rating_label(successes: nat, mean_fuel: nat) -> Seq<char> {
    if successes == 3 {
        if mean_fuel >= 70_000 {
            "ACE PILOT"@
        } else if mean_fuel >= 50_000 {
            "EXPERT"@
        } else {
            "SKILLED"@
        }
    } else if successes == 2 {
        if mean_fuel >= 60_000 {
            "COMPETENT"@
        } else {
            "ADEQUATE"@
        }
    } else if successes == 1 {
        "NOVICE"@
    } else if successes == 0 {
        "NEEDS PRACTICE"@
    } else {
        "UNKNOWN"@
    }
}

/// A session of landing attempts.
#[derive(Debug, Clone)]
pub struct GameSession {
    /// Position of the attempt under way: 0, 1 or 2, and 3 once all are done.
    pub current_attempt: usize,
    pub max_attempts: usize,
    pub attempts: Vec<LandingAttempt>,
    /// Scores of the attempts so far together, in thousandths of a point.
    pub total_score: u64,
    pub session_complete: bool,
}

/// The state of a session as plain values.
pub struct SessionView {
    pub current_attempt: nat,
    pub max_attempts: nat,
    pub attempts: Seq<LandingAttempt>,
    pub total_score: nat,
    pub session_complete: bool,
}

impl SessionView {
    /// The session before its first attempt.
    pub open spec fn fresh() -> SessionView {
        SessionView {
            current_attempt: 0,
            max_attempts: MAX_ATTEMPTS as nat,
            attempts: seq![attempt_in_progress(), attempt_in_progress(), attempt_in_progress()],
            total_score: 0,
            session_complete: false,
        }
    }

    /// The session after the attempt under way has ended as `attempt`: the
    /// attempt is stored in its slot, its score added to the total, the next
    /// slot becomes the one under way, and the session is complete once no
    /// slot is left.
    pub open spec fn recorded(self, attempt: LandingAttempt) -> SessionView {
        SessionView {
            current_attempt: self.current_attempt + 1,
            max_attempts: self.max_attempts,
            attempts: self.attempts.update(self.current_attempt as int, attempt),
            total_score: clamp_u64(self.total_score + attempt.score) as nat,
            session_complete: self.session_complete || self.current_attempt + 1
                >= self.max_attempts,
        }
    }

    /// Whether another attempt can start.
    pub open spec fn can_continue(self) -> bool {
        !self.session_complete && self.current_attempt < self.max_attempts
    }

    /// Whether the state is one that a session reaches from its start by
    /// recording attempts: three slots, those before the current one ended
    /// and scored, the others untouched, the total the sum of the scores, and
    /// the session complete exactly when no slot is left.
    pub open spec fn wf(self) -> bool {
        &&& self.max_attempts == MAX_ATTEMPTS
        &&& self.attempts.len() == MAX_ATTEMPTS
        &&& self.current_attempt <= MAX_ATTEMPTS
        &&& self.session_complete == (self.current_attempt >= MAX_ATTEMPTS)
        &&& forall|i: int|
            0 <= i < self.current_attempt ==> (#[trigger] self.attempts[i]).is_scored()
                && self.attempts[i].result != AttemptResult::InProgress
        &&& forall|i: int|
            self.current_attempt <= i < MAX_ATTEMPTS ==> #[trigger] self.attempts[i]
                == attempt_in_progress()
        &&& self.total_score == sum_of_scores(self.attempts)
    }
}

impl View for GameSession {
    type V = SessionView;

    open spec fn view(&self) -> SessionView {
        SessionView {
            current_attempt: self.current_attempt as nat,
            max_attempts: self.max_attempts as nat,
            attempts: self.attempts@,
            total_score: self.total_score as nat,
            session_complete: self.session_complete,
        }
    }
}

impl GameSession {
    /// A session before its first attempt.
    pub fn new() -> (s: GameSession)
        ensures
            s@ == SessionView::fresh(),
            s@.wf(),
    {
        proof {
            lemma_fresh_session_wf();
        }
        let mut attempts: Vec<LandingAttempt> = Vec::with_capacity(MAX_ATTEMPTS);
        attempts.push(LandingAttempt::new_in_progress());
        attempts.push(LandingAttempt::new_in_progress());
        attempts.push(LandingAttempt::new_in_progress());
        assert(attempts@ =~= SessionView::fresh().attempts);
        GameSession {
            current_attempt: 0,
            max_attempts: MAX_ATTEMPTS,
            attempts,
            total_score: 0,
            session_complete: false,
        }
    }

    /// Number of the attempt under way, counted from one and no larger than
    /// the number of attempts.
    pub fn attempt_number(&self) -> (n: usize)
        ensures
            n == if self.current_attempt + 1 <= self.max_attempts {
                self.current_attempt + 1
            } else {
                self.max_attempts as int
            },
    {
        let next: usize = self.current_attempt.saturating_add(1);
        if next <= self.max_attempts {
            next
        } else {
            self.max_attempts
        }
    }

    /// Number of attempts with the given result.
    fn count(&self, result: AttemptResult) -> (n: usize)
        ensures
            n == count_result(self.attempts@, result),
    {
        let mut n: usize = 0;
        let mut i: usize = 0;
        while i < self.attempts.len()
            invariant
                i <= self.attempts.len(),
                n == count_result(self.attempts@.take(i as int), result),
                n <= i,
            decreases self.attempts.len() - i,
        {
            assert(self.attempts@.take(i + 1).drop_last() =~= self.attempts@.take(i as int));
            if self.attempts[i].result == result {
                n += 1;
            }
            i += 1;
        }
        assert(self.attempts@.take(i as int) =~= self.attempts@);
        n
    }

    /// Number of successful attempts.
    pub fn success_count(&self) -> (n: usize)
        ensures
            n == count_result(self.attempts@, AttemptResult::Success),
    {
        self.count(AttemptResult::Success)
    }

    /// Number of failed attempts.
    pub fn failure_count(&self) -> (n: usize)
        ensures
            n == count_result(self.attempts@, AttemptResult::Failure),
    {
        self.count(AttemptResult::Failure)
    }

    /// The successful attempt of highest score, the last of them where
    /// several share it; none where no attempt succeeded.
    pub fn best_attempt(&self) -> (best: Option<&LandingAttempt>)
        ensures
            match best {
                Some(a) => best_index(self.attempts@) is Some && *a == self.attempts@[best_index(
                    self.attempts@,
                )->0],
                None => best_index(self.attempts@) is None,
            },
    {
        let mut best: Option<usize> = None;
        let mut i: usize = 0;
        while i < self.attempts.len()
            invariant
                i <= self.attempts.len(),
                match best {
                    Some(b) => best_index(self.attempts@.take(i as int)) == Some(b as int) && b < i,
                    None => best_index(self.attempts@.take(i as int)) is None,
                },
            decreases self.attempts.len() - i,
        {
            assert(self.attempts@.take(i + 1).drop_last() =~= self.attempts@.take(i as int));
            if self.attempts[i].result == AttemptResult::Success {
                let better: bool = match best {
                    Some(b) => self.attempts[i].score >= self.attempts[b].score,
                    None => true,
                };
                if better {
                    best = Some(i);
                }
            }
            i += 1;
        }
        assert(self.attempts@.take(i as int) =~= self.attempts@);
        match best {
            Some(b) => Some(&self.attempts[b]),
            None => None,
        }
    }

    /// Mean fuel left over the successful attempts, in thousandths of a
    /// percent; zero where no attempt succeeded.
    pub fn average_fuel_efficiency(&self) -> (mean: u32)
        ensures
            mean == mean_fuel_of_successes(self.attempts@),
    {
        let mut total: u128 = 0;
        let mut successes: u128 = 0;
        let mut i: usize = 0;
        while i < self.attempts.len()
            invariant
                i <= self.attempts.len(),
                successes == count_result(self.attempts@.take(i as int), AttemptResult::Success),
                total == fuel_of_successes(self.attempts@.take(i as int)),
                successes <= i,
                total <= successes * 0xFFFF_FFFF,
            decreases self.attempts.len() - i,
        {
            assert(self.attempts@.take(i + 1).drop_last() =~= self.attempts@.take(i as int));
            proof {
                lemma_fuel_of_successes_bounded(self.attempts@.take(i + 1));
                lemma_count_result_bounded(self.attempts@.take(i + 1), AttemptResult::Success);
                assert(successes * 0xFFFF_FFFF <= i * 0xFFFF_FFFF) by (nonlinear_arith)
                    requires
                        successes <= i,
                ;
                assert(i * 0xFFFF_FFFF <= 0xFFFF_FFFF_FFFF_FFFF * 0xFFFF_FFFF) by (nonlinear_arith)
                    requires
                        i <= 0xFFFF_FFFF_FFFF_FFFF,
                ;
            }
            if self.attempts[i].result == AttemptResult::Success {
                total = total + self.attempts[i].fuel_remaining as u128;
                successes = successes + 1;
            }
            i += 1;
        }
        assert(self.attempts@.take(i as int) =~= self.attempts@);
        if successes == 0 {
            0
        } else {
            proof {
                vstd::arithmetic::div_mod::lemma_div_is_ordered(
                    total as int,
                    successes * 0xFFFF_FFFF,
                    successes as int,
                );
                vstd::arithmetic::div_mod::lemma_div_by_multiple(0xFFFF_FFFF, successes as int);
                vstd::arithmetic::mul::lemma_mul_is_commutative(successes as int, 0xFFFF_FFFF);
            }
            (total / successes) as u32
        }
    }

    /// The rating of the session, by its successes and the mean fuel left
    /// over them.
    pub fn performance_rating(&self) -> (rating: &'static str)
        ensures
            rating@ == rating_label(
                count_result(self.attempts@, AttemptResult::Success),
                mean_fuel_of_successes(self.attempts@),
            ),
    {
        let successes: usize = self.success_count();
        let mean_fuel: u32 = self.average_fuel_efficiency();
        if successes == 3 {
            if mean_fuel >= 70_000 {
                "ACE PILOT"
            } else if mean_fuel >= 50_000 {
                "EXPERT"
            } else {
                "SKILLED"
            }
        } else if successes == 2 {
            if mean_fuel >= 60_000 {
                "COMPETENT"
            } else {
                "ADEQUATE"
            }
        } else if successes == 1 {
            "NOVICE"
        } else if successes == 0 {
            "NEEDS PRACTICE"
        } else {
            "UNKNOWN"
        }
    }
}

/// Runs a session: records attempts and tells whether more may follow.
#[derive(Debug, Clone)]
pub struct SessionManager {
    pub session: GameSession,
}

impl SessionManager {
    /// A manager with a session before its first attempt.
    pub fn new() -> (m: SessionManager)
        ensures
            m.session@ == SessionView::fresh(),
            m.session@.wf(),
    {
        SessionManager { session: GameSession::new() }
    }

    /// Ends the attempt under way: stores it with its score, adds the score
    /// to the total and moves on to the next slot. The session is complete
    /// once the last slot is filled.
    pub fn complete_attempt(
        &mut self,
        result: AttemptResult,
        fuel_remaining: u32,
        zone: Option<LandingZoneDifficulty>,
        time: u64,
    )
        requires
            old(self).session.current_attempt < old(self).session.attempts@.len(),
        ensures
            final(self).session@ == old(self).session@.recorded(
                completed_attempt(result, zone, fuel_remaining, time),
            ),
            old(self).session@.wf() && result != AttemptResult::InProgress ==> final(self).session@.wf(),
    {
        proof {
            if old(self).session@.wf() && result != AttemptResult::InProgress {
                lemma_recorded_session_wf(
                    old(self).session@,
                    completed_attempt(result, zone, fuel_remaining, time),
                );
            }
        }
        let attempt: LandingAttempt = LandingAttempt::new_completed(
            result,
            zone,
            fuel_remaining,
            time,
        );
        let slot: usize = self.session.current_attempt;
        let slots: usize = self.session.attempts.len();
        assert(slot < slots);
        self.session.attempts[slot] = attempt;
        self.session.total_score = self.session.total_score.saturating_add(attempt.score);
        self.session.current_attempt = slot + 1;
        if self.session.current_attempt >= self.session.max_attempts {
            self.session.session_complete = true;
        }
    }

    /// Whether another attempt can start.
    pub fn can_start_next_attempt(&self) -> (b: bool)
        ensures
            b == self.session@.can_continue(),
    {
        !self.session.session_complete && self.session.current_attempt
            < self.session.max_attempts
    }

    /// Starts a new session.
    pub fn reset_session(&mut self)
        ensures
            final(self).session@ == SessionView::fresh(),
            final(self).session@.wf(),
    {
        self.session = GameSession::new();
    }

    /// Number of the attempt under way, counted from one and no larger than
    /// the number of attempts.
    pub fn current_attempt_display(&self) -> (n: usize)
        ensures
            n == if self.session.current_attempt + 1 <= self.session.max_attempts {
                self.session.current_attempt + 1
            } else {
                self.session.max_attempts as int
            },
    {
        self.session.attempt_number()
    }

    /// Whether the attempt under way is the last.
    pub fn is_final_attempt(&self) -> (b: bool)
        ensures
            b == (self.session.current_attempt + 1 >= self.session.max_attempts),
    {
        self.session.current_attempt >= self.session.max_attempts.saturating_sub(1)
    }
}

/// A session at its start is well formed.
pub proof fn lemma_fresh_session_wf()
    ensures
        SessionView::fresh().wf(),
        SessionView::fresh().can_continue(),
{
    let s = SessionView::fresh();
    reveal_with_fuel(sum_of_scores, 4);
    assert(s.attempts.drop_last() =~= seq![attempt_in_progress(), attempt_in_progress()]);
    assert(s.attempts.drop_last().drop_last() =~= seq![attempt_in_progress()]);
    assert(s.attempts.drop_last().drop_last().drop_last() =~= Seq::<LandingAttempt>::empty());
}

/// Replacing an attempt changes the sum of the scores by the difference of
/// the two scores.
pub proof fn lemma_sum_of_scores_update(attempts: Seq<LandingAttempt>, i: int, a: LandingAttempt)
    requires
        0 <= i < attempts.len(),
    ensures
        sum_of_scores(attempts.update(i, a)) == sum_of_scores(attempts) - attempts[i].score + a.score,
    decreases attempts.len(),
{
    let updated = attempts.update(i, a);
    if i == attempts.len() - 1 {
        assert(updated.drop_last() =~= attempts.drop_last());
    } else {
        lemma_sum_of_scores_update(attempts.drop_last(), i, a);
        assert(updated.drop_last() =~= attempts.drop_last().update(i, a));
    }
}

/// The scores of a well-formed session sum to less than three times the
/// largest landing score.
pub proof fn lemma_session_total_bounded(s: SessionView)
    requires
        s.wf(),
    ensures
        s.total_score <= s.current_attempt * 0x7FFF_FFFF_FFFF,
{
    reveal_with_fuel(sum_of_scores, 4);
    let a = s.attempts;
    assert(a.drop_last().drop_last().drop_last().len() == 0);
    assert(a.drop_last().drop_last().last() == a[0]);
    assert(a.drop_last().last() == a[1]);
    assert(a.last() == a[2]);
    assert forall|i: int| 0 <= i < 3 implies (#[trigger] a[i]).score <= (if i < s.current_attempt {
        0x7FFF_FFFF_FFFFint
    } else {
        0int
    }) by {
        if i < s.current_attempt {
            if a[i].result == AttemptResult::Success && a[i].landing_zone is Some {
                lemma_landing_score_bounded(a[i].landing_zone->0, a[i].fuel_remaining, a[i].time_taken);
            }
        }
    }
    assert(a[0].score + a[1].score + a[2].score <= s.current_attempt * 0x7FFF_FFFF_FFFF);
}

/// Recording an ended, scored attempt in a well-formed session that is not
/// complete leaves it well formed, with the attempt's score added to the
/// total.
pub proof fn lemma_recorded_session_wf(s: SessionView, attempt: LandingAttempt)
    requires
        s.wf(),
        s.can_continue(),
        attempt.is_scored(),
        attempt.result != AttemptResult::InProgress,
    ensures
        s.recorded(attempt).wf(),
        s.recorded(attempt).total_score == s.total_score + attempt.score,
{
    let next = s.recorded(attempt);
    lemma_session_total_bounded(s);
    if attempt.result == AttemptResult::Success && attempt.landing_zone is Some {
        lemma_landing_score_bounded(
            attempt.landing_zone->0,
            attempt.fuel_remaining,
            attempt.time_taken,
        );
    }
    lemma_sum_of_scores_update(s.attempts, s.current_attempt as int, attempt);
    assert(s.attempts[s.current_attempt as int] == attempt_in_progress());
}

/// After exactly three recorded attempts a session is complete, and not
/// before; its total is then the sum of the three scores.
pub proof fn lemma_three_attempts_complete_session(
    first: LandingAttempt,
    second: LandingAttempt,
    third: LandingAttempt,
)
    requires
        first.is_scored() && first.result != AttemptResult::InProgress,
        second.is_scored() && second.result != AttemptResult::InProgress,
        third.is_scored() && third.result != AttemptResult::InProgress,
    ensures
        !SessionView::fresh().session_complete,
        !SessionView::fresh().recorded(first).session_complete,
        !SessionView::fresh().recorded(first).recorded(second).session_complete,
        SessionView::fresh().recorded(first).recorded(second).recorded(third).session_complete,
        SessionView::fresh().recorded(first).recorded(second).recorded(third).total_score
            == first.score + second.score + third.score,
        SessionView::fresh().recorded(first).recorded(second).recorded(third).attempts == seq![
            first,
            second,
            third,
        ],
        !SessionView::fresh().recorded(first).recorded(second).recorded(third).can_continue(),
{
    let s0 = SessionView::fresh();
    lemma_fresh_session_wf();
    lemma_recorded_session_wf(s0, first);
    let s1 = s0.recorded(first);
    lemma_recorded_session_wf(s1, second);
    let s2 = s1.recorded(second);
    lemma_recorded_session_wf(s2, third);
    let s3 = s2.recorded(third);
    assert(s3.attempts =~= seq![first, second, third]);
}

} // verus!
