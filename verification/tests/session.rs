use lunar_lander::session::{AttemptResult, GameSession, LandingAttempt, SessionManager};
use lunar_lander::surface::LandingZoneDifficulty;

#[test]
fn test_scoring_calculation() {
    let score = LandingAttempt::calculate_score(LandingZoneDifficulty::Hard, 80_000, 45_000);
    assert_eq!(score, 4_320_000);

    let score = LandingAttempt::calculate_score(LandingZoneDifficulty::Easy, 20_000, 75_000);
    assert!((score as i64 - 1_600_000).abs() < 10_000);
}

#[test]
fn test_session_progression() {
    let mut manager = SessionManager::new();

    assert_eq!(manager.session.current_attempt, 0);
    assert!(!manager.session.session_complete);

    manager.complete_attempt(AttemptResult::Success, 70_000, Some(LandingZoneDifficulty::Hard), 50_000);
    assert_eq!(manager.session.current_attempt, 1);
    assert!(!manager.session.session_complete);
    assert!(manager.session.total_score > 0);

    manager.complete_attempt(AttemptResult::Failure, 30_000, None, 120_000);
    manager.complete_attempt(AttemptResult::Success, 90_000, Some(LandingZoneDifficulty::Medium), 40_000);

    assert!(manager.session.session_complete);
    assert_eq!(manager.session.success_count(), 2);
    assert_eq!(manager.session.failure_count(), 1);
}

#[test]
fn test_performance_rating() {
    let mut session = GameSession::new();

    session.attempts = vec![
        LandingAttempt::new_completed(AttemptResult::Success, Some(LandingZoneDifficulty::Hard), 80_000, 45_000),
        LandingAttempt::new_completed(AttemptResult::Success, Some(LandingZoneDifficulty::Medium), 75_000, 55_000),
        LandingAttempt::new_completed(AttemptResult::Success, Some(LandingZoneDifficulty::Easy), 85_000, 40_000),
    ];

    assert_eq!(session.performance_rating(), "ACE PILOT");
    assert_eq!(session.success_count(), 3);
    assert!((session.average_fuel_efficiency() as i64 - 80_000).abs() < 1_000);
}

#[test]
fn scores_are_exact() {
    assert_eq!(LandingAttempt::calculate_score(LandingZoneDifficulty::Easy, 20_000, 75_000), 1_600_000);
    assert_eq!(LandingAttempt::calculate_score(LandingZoneDifficulty::Hard, 50_000, 10_000), 3_600_000);
    assert_eq!(LandingAttempt::calculate_score(LandingZoneDifficulty::Easy, 80_000, 90_000), 2_400_000);
    assert_eq!(LandingAttempt::calculate_score(LandingZoneDifficulty::Medium, 0, 60_000), 1_600_000);
    assert_eq!(LandingAttempt::calculate_score(LandingZoneDifficulty::Medium, 0, 59_999), 1_920_000);
    assert_eq!(LandingAttempt::calculate_score(LandingZoneDifficulty::Easy, 1, 60_000), 1_333_346);
    assert_eq!(
        LandingAttempt::calculate_score(LandingZoneDifficulty::Hard, u32::MAX, 0),
        2 * (100_000 + u32::MAX as u64) * 12
    );
}

#[test]
fn only_a_success_on_a_zone_scores() {
    let a = LandingAttempt::new_completed(AttemptResult::Failure, Some(LandingZoneDifficulty::Hard), 80_000, 45_000);
    assert_eq!(a.score, 0);
    assert_eq!(a.result, AttemptResult::Failure);
    assert_eq!(a.fuel_remaining, 80_000);
    assert_eq!(a.landing_zone, Some(LandingZoneDifficulty::Hard));
    assert_eq!(a.time_taken, 45_000);
    let a = LandingAttempt::new_completed(AttemptResult::Success, None, 80_000, 45_000);
    assert_eq!(a.score, 0);
    let a = LandingAttempt::new_completed(AttemptResult::InProgress, Some(LandingZoneDifficulty::Hard), 80_000, 45_000);
    assert_eq!(a.score, 0);
    let a = LandingAttempt::new_completed(AttemptResult::Success, Some(LandingZoneDifficulty::Hard), 80_000, 45_000);
    assert_eq!(a.score, 4_320_000);
    let a = LandingAttempt::new_in_progress();
    assert_eq!(a.result, AttemptResult::InProgress);
    assert_eq!(a.score, 0);
    assert_eq!(a.fuel_remaining, 0);
    assert_eq!(a.landing_zone, None);
    assert_eq!(a.time_taken, 0);
}

#[test]
fn three_attempts_complete_the_session_and_sum_the_scores() {
    let mut manager = SessionManager::new();
    assert!(manager.can_start_next_attempt());
    assert_eq!(manager.current_attempt_display(), 1);
    assert_eq!(manager.session.attempt_number(), 1);
    assert!(!manager.is_final_attempt());

    manager.complete_attempt(AttemptResult::Success, 80_000, Some(LandingZoneDifficulty::Hard), 45_000);
    assert!(!manager.session.session_complete);
    assert!(manager.can_start_next_attempt());
    assert_eq!(manager.current_attempt_display(), 2);
    assert!(!manager.is_final_attempt());

    manager.complete_attempt(AttemptResult::Failure, 10_000, Some(LandingZoneDifficulty::Easy), 30_000);
    assert!(!manager.session.session_complete);
    assert_eq!(manager.current_attempt_display(), 3);
    assert!(manager.is_final_attempt());

    manager.complete_attempt(AttemptResult::Success, 20_000, Some(LandingZoneDifficulty::Easy), 75_000);
    assert!(manager.session.session_complete);
    assert!(!manager.can_start_next_attempt());
    assert_eq!(manager.session.current_attempt, 3);
    assert_eq!(manager.current_attempt_display(), 3);
    assert_eq!(manager.session.attempt_number(), 3);
    assert!(manager.is_final_attempt());

    let scores: Vec<u64> = manager.session.attempts.iter().map(|a| a.score).collect();
    assert_eq!(scores, vec![4_320_000, 0, 1_600_000]);
    assert_eq!(manager.session.total_score, 5_920_000);
    assert_eq!(manager.session.success_count(), 2);
    assert_eq!(manager.session.failure_count(), 1);
    assert_eq!(manager.session.average_fuel_efficiency(), 50_000);
    assert_eq!(manager.session.performance_rating(), "ADEQUATE");
    assert_eq!(manager.session.best_attempt().map(|a| a.score), Some(4_320_000));

    manager.reset_session();
    assert_eq!(manager.session.current_attempt, 0);
    assert_eq!(manager.session.max_attempts, 3);
    assert_eq!(manager.session.attempts.len(), 3);
    assert_eq!(manager.session.total_score, 0);
    assert!(!manager.session.session_complete);
    assert_eq!(manager.session.success_count(), 0);
    assert_eq!(manager.session.failure_count(), 0);
    assert!(manager.session.best_attempt().is_none());
    assert_eq!(manager.session.average_fuel_efficiency(), 0);
    assert_eq!(manager.session.performance_rating(), "NEEDS PRACTICE");
}

fn session_of(attempts: Vec<LandingAttempt>) -> GameSession {
    let mut session = GameSession::new();
    session.attempts = attempts;
    session
}

fn success(fuel: u32) -> LandingAttempt {
    LandingAttempt::new_completed(AttemptResult::Success, Some(LandingZoneDifficulty::Hard), fuel, 90_000)
}

fn failure() -> LandingAttempt {
    LandingAttempt::new_completed(AttemptResult::Failure, None, 99_000, 90_000)
}

#[test]
fn ratings_follow_successes_and_mean_fuel() {
    assert_eq!(session_of(vec![success(70_000), success(70_000), success(70_000)]).performance_rating(), "ACE PILOT");
    assert_eq!(session_of(vec![success(69_999), success(70_000), success(70_000)]).performance_rating(), "EXPERT");
    assert_eq!(session_of(vec![success(50_000), success(50_000), success(50_000)]).performance_rating(), "EXPERT");
    assert_eq!(session_of(vec![success(49_999), success(50_000), success(50_000)]).performance_rating(), "SKILLED");
    assert_eq!(session_of(vec![success(60_000), failure(), success(60_000)]).performance_rating(), "COMPETENT");
    assert_eq!(session_of(vec![success(59_999), failure(), success(60_000)]).performance_rating(), "ADEQUATE");
    assert_eq!(session_of(vec![failure(), failure(), success(100_000)]).performance_rating(), "NOVICE");
    assert_eq!(session_of(vec![failure(), failure(), failure()]).performance_rating(), "NEEDS PRACTICE");
    assert_eq!(
        session_of(vec![success(1), success(1), success(1), success(1)]).performance_rating(),
        "UNKNOWN"
    );
    assert_eq!(session_of(vec![]).performance_rating(), "NEEDS PRACTICE");
}

#[test]
fn mean_fuel_counts_successes_only_and_rounds_down() {
    assert_eq!(session_of(vec![success(10), failure(), success(15)]).average_fuel_efficiency(), 12);
    assert_eq!(session_of(vec![failure()]).average_fuel_efficiency(), 0);
    assert_eq!(
        session_of(vec![success(u32::MAX), success(u32::MAX), success(u32::MAX)]).average_fuel_efficiency(),
        u32::MAX
    );
}

#[test]
fn best_attempt_is_the_last_of_the_highest_successes() {
    let mut late = success(40_000);
    late.time_taken = 1;
    let session = session_of(vec![success(40_000), late, success(10_000)]);
    let best = session.best_attempt().unwrap();
    assert_eq!(best.score, 2_800_000);
    assert_eq!(best.time_taken, 1);

    let mut unscored_failure = failure();
    unscored_failure.score = 9_999_999;
    let session = session_of(vec![unscored_failure, success(0)]);
    assert_eq!(session.best_attempt().unwrap().score, 2_000_000);
    assert!(session_of(vec![failure(), LandingAttempt::new_in_progress()]).best_attempt().is_none());
}
