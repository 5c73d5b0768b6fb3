use peer_learning::badges::badge::BadgeManager;
use peer_learning::badges::contract::SkillBadgeContract;
use peer_learning::badges::errors::ContractError as BadgeError;
use peer_learning::badges::types::{BadgeLevel, PuzzleCategory};
use peer_learning::mentorship::contract::PeerLearningContract;
use peer_learning::mentorship::errors::ContractError;
use peer_learning::mentorship::mentor::MentorManager;
use peer_learning::mentorship::types::{
    DisputeOutcome, MentorProfile, SessionStatus, SkillCategory,
};

const CONTRACT_ADDRESS: u64 = 1000;
const ADMIN: u64 = 1;
const TOKEN: u64 = 2;
const MENTOR: u64 = 10;
const MENTEE: u64 = 11;

fn platform() -> PeerLearningContract {
    let mut c = PeerLearningContract::new(CONTRACT_ADDRESS);
    c.initialize(ADMIN, TOKEN, 500u32).unwrap();
    c
}

fn funded_pair() -> PeerLearningContract {
    let mut c = platform();
    c.register_mentor(MENTOR, vec![SkillCategory::Logic, SkillCategory::Math], 500i128, 0)
        .unwrap();
    c.register_mentee(MENTEE, 0).unwrap();
    c.token.mint(MENTEE, 10_000);
    c
}

#[test]
fn test_verified_completion_pays_out_exactly() {
    let mut c = funded_pair();
    let s = c
        .create_session(MENTEE, MENTOR, SkillCategory::Logic, String::from("Goal"), 1000i128, 0)
        .unwrap();
    assert_eq!(s.platform_fee, 50);
    assert_eq!(c.token.balance(MENTEE), 9_000);
    assert_eq!(c.token.balance(CONTRACT_ADDRESS), 1_000);

    c.accept_session(MENTOR, s.session_id, 0).unwrap();
    c.submit_completion(MENTOR, s.session_id, String::from("Done")).unwrap();
    let done = c
        .verify_completion(MENTEE, s.session_id, 5u32, String::from("Great"), 0)
        .unwrap();

    assert_eq!(done.status, SessionStatus::Completed);
    assert_eq!(c.token.balance(MENTOR), 950);
    assert_eq!(c.token.balance(ADMIN), 50);
    assert_eq!(c.token.balance(CONTRACT_ADDRESS), 0);
    assert!(c.get_mentor_profile(MENTOR).unwrap().reputation_score > 0);
}

#[test]
fn test_split_dispute_odd_reward() {
    let mut c = funded_pair();
    let s = c
        .create_session(MENTEE, MENTOR, SkillCategory::Logic, String::from("Goal"), 2001i128, 0)
        .unwrap();
    c.accept_session(MENTOR, s.session_id, 0).unwrap();
    c.dispute_session(MENTEE, s.session_id, String::from("Disagreement")).unwrap();
    c.resolve_dispute(ADMIN, s.session_id, DisputeOutcome::Split, 0).unwrap();

    assert_eq!(c.token.balance(MENTOR), 1_000);
    assert_eq!(c.token.balance(MENTEE), 10_000 - 2_001 + 1_001);
    assert_eq!(c.token.balance(CONTRACT_ADDRESS), 0);
}

#[test]
fn test_favor_mentor_pays_reward_minus_fee() {
    let mut c = funded_pair();
    let s = c
        .create_session(MENTEE, MENTOR, SkillCategory::Math, String::from("Goal"), 1000i128, 0)
        .unwrap();
    c.accept_session(MENTOR, s.session_id, 0).unwrap();
    c.dispute_session(MENTOR, s.session_id, String::from("Reason")).unwrap();
    c.resolve_dispute(ADMIN, s.session_id, DisputeOutcome::FavorMentor, 0).unwrap();

    assert_eq!(c.token.balance(MENTOR), 950);
    assert_eq!(c.token.balance(ADMIN), 50);
    assert_eq!(c.token.balance(CONTRACT_ADDRESS), 0);
    let stats = c.get_platform_stats();
    assert_eq!(stats.total_rewards_distributed, 950);
    assert_eq!(stats.total_fees_collected, 50);
}

#[test]
fn test_favor_mentee_refunds_in_full() {
    let mut c = funded_pair();
    let s = c
        .create_session(MENTEE, MENTOR, SkillCategory::Math, String::from("Goal"), 1000i128, 0)
        .unwrap();
    c.accept_session(MENTOR, s.session_id, 0).unwrap();
    c.dispute_session(MENTEE, s.session_id, String::from("Reason")).unwrap();
    c.resolve_dispute(ADMIN, s.session_id, DisputeOutcome::FavorMentee, 0).unwrap();

    assert_eq!(c.token.balance(MENTEE), 10_000);
    assert_eq!(c.token.balance(MENTOR), 0);
    assert_eq!(c.token.balance(CONTRACT_ADDRESS), 0);
}

#[test]
fn test_cancel_refunds_mentee() {
    let mut c = funded_pair();
    let s = c
        .create_session(MENTEE, MENTOR, SkillCategory::Logic, String::from("Goal"), 500i128, 0)
        .unwrap();
    assert_eq!(c.token.balance(MENTEE), 9_500);
    c.cancel_session(MENTEE, s.session_id).unwrap();
    assert_eq!(c.token.balance(MENTEE), 10_000);
    assert_eq!(c.token.balance(CONTRACT_ADDRESS), 0);
}

#[test]
fn test_escrow_record_exists_while_funds_are_held() {
    let mut c = funded_pair();
    let s = c
        .create_session(MENTEE, MENTOR, SkillCategory::Logic, String::from("Goal"), 700i128, 0)
        .unwrap();
    let i = (s.session_id - 1) as usize;
    assert_eq!(c.sessions.escrows[i], Some(700));

    c.accept_session(MENTOR, s.session_id, 0).unwrap();
    assert_eq!(c.sessions.escrows[i], Some(700));

    c.submit_completion(MENTOR, s.session_id, String::from("Done")).unwrap();
    assert_eq!(c.sessions.escrows[i], Some(700));

    c.verify_completion(MENTEE, s.session_id, 4u32, String::from("Fine"), 0).unwrap();
    assert_eq!(c.sessions.escrows[i], None);
}

#[test]
fn test_leaderboard_is_stable_for_equal_scores() {
    let mut c = platform();
    let mentor_a: u64 = 21;
    let mentor_b: u64 = 22;
    c.register_mentor(mentor_a, vec![SkillCategory::Logic], 500i128, 0).unwrap();
    c.register_mentor(mentor_b, vec![SkillCategory::Logic], 500i128, 0).unwrap();
    c.register_mentee(MENTEE, 0).unwrap();
    c.token.mint(MENTEE, 100_000);

    for mentor in [mentor_a, mentor_b] {
        let s = c
            .create_session(MENTEE, mentor, SkillCategory::Logic, String::from("Goal"), 1000i128, 0)
            .unwrap();
        c.accept_session(mentor, s.session_id, 0).unwrap();
        c.submit_completion(mentor, s.session_id, String::from("Done")).unwrap();
        c.verify_completion(MENTEE, s.session_id, 4u32, String::from("Good"), 0).unwrap();
    }

    let board = c.get_top_mentors(10);
    assert_eq!(board.len(), 2);
    assert_eq!(board[0].reputation_score, board[1].reputation_score);
    // The first mentor to enter the board keeps the better rank.
    assert_eq!(board[0].mentor, mentor_a);
    assert_eq!(board[0].rank, 1);
    assert_eq!(board[1].mentor, mentor_b);
    assert_eq!(board[1].rank, 2);
}

#[test]
fn test_top_mentors_clamps_to_board_length() {
    let mut c = funded_pair();
    let s = c
        .create_session(MENTEE, MENTOR, SkillCategory::Logic, String::from("Goal"), 1000i128, 0)
        .unwrap();
    c.accept_session(MENTOR, s.session_id, 0).unwrap();
    c.submit_completion(MENTOR, s.session_id, String::from("Done")).unwrap();
    c.verify_completion(MENTEE, s.session_id, 5u32, String::from("Great"), 0).unwrap();

    assert_eq!(c.get_top_mentors(0).len(), 0);
    assert_eq!(c.get_top_mentors(100).len(), 1);
}

#[test]
fn test_session_id_lists() {
    let mut c = funded_pair();
    c.create_session(MENTEE, MENTOR, SkillCategory::Logic, String::from("One"), 100i128, 0)
        .unwrap();
    c.create_session(MENTEE, MENTOR, SkillCategory::Math, String::from("Two"), 100i128, 0)
        .unwrap();
    assert_eq!(c.get_mentor_sessions(MENTOR), vec![1u64, 2u64]);
    assert_eq!(c.get_mentee_sessions(MENTEE), vec![1u64, 2u64]);
    assert_eq!(c.get_mentor_sessions(99), Vec::<u64>::new());
}

#[test]
fn test_create_session_rejections() {
    let mut c = funded_pair();
    let e = c.create_session(MENTEE, MENTEE, SkillCategory::Logic, String::from("G"), 100, 0);
    assert_eq!(e.unwrap_err(), ContractError::SelfMentorship);
    let e = c.create_session(MENTEE, MENTOR, SkillCategory::Logic, String::from("G"), 0, 0);
    assert_eq!(e.unwrap_err(), ContractError::InvalidRewardAmount);
    let e = c.create_session(MENTEE, MENTOR, SkillCategory::Logic, String::new(), 100, 0);
    assert_eq!(e.unwrap_err(), ContractError::InvalidGoal);
    let e = c.create_session(77, MENTOR, SkillCategory::Logic, String::from("G"), 100, 0);
    assert_eq!(e.unwrap_err(), ContractError::MenteeNotFound);
    let e = c.create_session(MENTEE, 78, SkillCategory::Logic, String::from("G"), 100, 0);
    assert_eq!(e.unwrap_err(), ContractError::MentorNotFound);
    let e = c.create_session(MENTEE, MENTOR, SkillCategory::Spatial, String::from("G"), 100, 0);
    assert_eq!(e.unwrap_err(), ContractError::SkillNotOffered);
    let e = c.create_session(MENTEE, MENTOR, SkillCategory::Logic, String::from("G"), 99_999, 0);
    assert_eq!(e.unwrap_err(), ContractError::InsufficientEscrow);

    c.set_mentor_active(MENTOR, false).unwrap();
    let e = c.create_session(MENTEE, MENTOR, SkillCategory::Logic, String::from("G"), 100, 0);
    assert_eq!(e.unwrap_err(), ContractError::MentorNotActive);
    assert_eq!(c.set_mentor_active(55, true).unwrap_err(), ContractError::MentorNotFound);
}

#[test]
fn test_rating_bounds_are_rejected() {
    let mut c = funded_pair();
    let s = c
        .create_session(MENTEE, MENTOR, SkillCategory::Logic, String::from("Goal"), 1000i128, 0)
        .unwrap();
    c.accept_session(MENTOR, s.session_id, 0).unwrap();
    c.submit_completion(MENTOR, s.session_id, String::from("Done")).unwrap();

    let e = c.verify_completion(MENTEE, s.session_id, 0u32, String::from("Bad"), 0);
    assert_eq!(e.unwrap_err(), ContractError::InvalidRating);
    let e = c.verify_completion(MENTEE, s.session_id, 6u32, String::from("Bad"), 0);
    assert_eq!(e.unwrap_err(), ContractError::InvalidRating);
    // The session is untouched and a valid rating still goes through.
    c.verify_completion(MENTEE, s.session_id, 1u32, String::from("Ok"), 0).unwrap();
}

#[test]
fn test_illegal_transitions_are_rejected() {
    let mut c = funded_pair();
    let s = c
        .create_session(MENTEE, MENTOR, SkillCategory::Logic, String::from("Goal"), 1000i128, 0)
        .unwrap();
    assert_eq!(
        c.accept_session(MENTOR, 99, 0).unwrap_err(),
        ContractError::SessionNotFound
    );
    assert_eq!(
        c.accept_session(MENTEE, s.session_id, 0).unwrap_err(),
        ContractError::Unauthorized
    );
    c.accept_session(MENTOR, s.session_id, 0).unwrap();
    // A non-Pending session cannot be accepted again or cancelled.
    assert_eq!(
        c.accept_session(MENTOR, s.session_id, 0).unwrap_err(),
        ContractError::InvalidStatus
    );
    assert_eq!(
        c.cancel_session(MENTEE, s.session_id).unwrap_err(),
        ContractError::InvalidStatus
    );
    c.dispute_session(MENTEE, s.session_id, String::from("Reason")).unwrap();
    assert_eq!(
        c.dispute_session(MENTOR, s.session_id, String::from("Again")).unwrap_err(),
        ContractError::SessionAlreadyDisputed
    );
    assert_eq!(
        c.resolve_dispute(MENTOR, s.session_id, DisputeOutcome::Split, 0).unwrap_err(),
        ContractError::Unauthorized
    );
}

#[test]
fn test_configuration_errors() {
    let mut fresh = PeerLearningContract::new(CONTRACT_ADDRESS);
    assert_eq!(fresh.get_admin().unwrap_err(), ContractError::NotInitialized);
    assert_eq!(fresh.get_reward_token().unwrap_err(), ContractError::NotInitialized);
    assert_eq!(
        fresh.initialize(ADMIN, TOKEN, 3001u32).unwrap_err(),
        ContractError::InvalidFeeRate
    );
    fresh.initialize(ADMIN, TOKEN, 3000u32).unwrap();
    assert_eq!(
        fresh.initialize(ADMIN, TOKEN, 100u32).unwrap_err(),
        ContractError::AlreadyInitialized
    );
    assert_eq!(fresh.transfer_admin(42, 43).unwrap_err(), ContractError::Unauthorized);
    assert_eq!(
        fresh.update_platform_fee(42, 100u32).unwrap_err(),
        ContractError::Unauthorized
    );
}

#[test]
fn test_platform_fee_is_locked_at_creation() {
    let mut c = funded_pair();
    let s1 = c
        .create_session(MENTEE, MENTOR, SkillCategory::Logic, String::from("A"), 2001i128, 0)
        .unwrap();
    assert_eq!(s1.platform_fee, 100);
    c.update_platform_fee(ADMIN, 3000u32).unwrap();
    let s2 = c
        .create_session(MENTEE, MENTOR, SkillCategory::Logic, String::from("B"), 1000i128, 0)
        .unwrap();
    assert_eq!(s2.platform_fee, 300);
    // The first session keeps the fee in force when it was created.
    assert_eq!(c.get_session(s1.session_id).unwrap().platform_fee, 100);
}

#[test]
fn test_reputation_formula_exact_values() {
    let top = MentorProfile {
        address: 5,
        skills: vec![SkillCategory::Logic],
        hourly_rate: 100,
        total_sessions: 1,
        completed_sessions: 1,
        total_rating: 5,
        rating_count: 1,
        reputation_score: 0,
        total_earned: 0,
        registered_at: 0,
        is_active: true,
    };
    assert_eq!(MentorManager::compute_reputation(&top), 100);

    let average = MentorProfile { total_rating: 3, ..top.clone() };
    assert_eq!(MentorManager::compute_reputation(&average), 76);

    let unrated = MentorProfile { total_rating: 0, rating_count: 0, ..top.clone() };
    assert_eq!(MentorManager::compute_reputation(&unrated), 0);
}

#[test]
fn test_compute_xp_exact_values() {
    assert_eq!(BadgeManager::compute_xp(0), 0);
    assert_eq!(BadgeManager::compute_xp(5), 500);
    assert_eq!(BadgeManager::compute_xp(10), 1000);
    assert_eq!(BadgeManager::compute_xp(15), 2000);
    assert_eq!(BadgeManager::compute_xp(30), 6000);
}

#[test]
fn test_compute_level_boundaries() {
    assert_eq!(BadgeManager::compute_level(0), BadgeLevel::Novice);
    assert_eq!(BadgeManager::compute_level(9), BadgeLevel::Novice);
    assert_eq!(BadgeManager::compute_level(10), BadgeLevel::Apprentice);
    assert_eq!(BadgeManager::compute_level(29), BadgeLevel::Apprentice);
    assert_eq!(BadgeManager::compute_level(30), BadgeLevel::Practitioner);
    assert_eq!(BadgeManager::compute_level(74), BadgeLevel::Practitioner);
    assert_eq!(BadgeManager::compute_level(75), BadgeLevel::Expert);
    assert_eq!(BadgeManager::compute_level(149), BadgeLevel::Expert);
    assert_eq!(BadgeManager::compute_level(150), BadgeLevel::Master);
    assert_eq!(BadgeManager::compute_level(299), BadgeLevel::Master);
    assert_eq!(BadgeManager::compute_level(300), BadgeLevel::Grandmaster);
    assert_eq!(BadgeManager::compute_level(100_000), BadgeLevel::Grandmaster);
}

#[test]
fn test_level_thresholds_table() {
    let t = BadgeManager::level_thresholds();
    assert_eq!(
        t,
        [(0, 10), (10, 30), (30, 75), (75, 150), (150, 300), (300, u32::MAX)]
    );
}

#[test]
fn test_badge_error_values() {
    let fresh = SkillBadgeContract::new();
    assert_eq!(fresh.get_admin().unwrap_err(), BadgeError::NotInitialized);

    let mut c = SkillBadgeContract::new();
    c.initialize(ADMIN).unwrap();
    assert_eq!(
        c.award_badge(42, 10, PuzzleCategory::Logic, 5, 0).unwrap_err(),
        BadgeError::Unauthorized
    );
    assert_eq!(
        c.award_badge(ADMIN, 10, PuzzleCategory::Logic, 0, 0).unwrap_err(),
        BadgeError::InvalidPuzzleCount
    );
    assert_eq!(
        c.update_progress(ADMIN, 10, PuzzleCategory::Logic, 5, 0).unwrap_err(),
        BadgeError::BadgeNotFound
    );
    assert_eq!(
        c.issue_credential(ADMIN, 10, PuzzleCategory::Logic, String::from("Meta"), 0).unwrap_err(),
        BadgeError::BadgeNotFound
    );
    assert_eq!(
        c.revoke_credential(ADMIN, 99).unwrap_err(),
        BadgeError::CredentialNotFound
    );

    c.award_badge(ADMIN, 10, PuzzleCategory::Logic, 5, 0).unwrap();
    let cred = c
        .issue_credential(ADMIN, 10, PuzzleCategory::Logic, String::from("Meta"), 0)
        .unwrap();
    c.revoke_credential(ADMIN, cred.credential_id).unwrap();
    assert_eq!(
        c.revoke_credential(ADMIN, cred.credential_id).unwrap_err(),
        BadgeError::CredentialRevoked
    );
}

#[test]
fn test_badge_leaderboard_stable_for_equal_xp() {
    let mut c = SkillBadgeContract::new();
    c.initialize(ADMIN).unwrap();
    c.award_badge(ADMIN, 10, PuzzleCategory::Logic, 20, 0).unwrap();
    c.award_badge(ADMIN, 11, PuzzleCategory::Logic, 20, 0).unwrap();

    let board = c.get_leaderboard(PuzzleCategory::Logic, 5);
    assert_eq!(board.len(), 2);
    assert_eq!(board[0].xp, board[1].xp);
    assert_eq!(board[0].player, 10);
    assert_eq!(board[1].player, 11);
    assert_eq!(board[0].rank, 1);
    assert_eq!(board[1].rank, 2);
}

#[test]
fn test_award_badge_on_existing_badge_updates_progress() {
    let mut c = SkillBadgeContract::new();
    c.initialize(ADMIN).unwrap();
    let first = c.award_badge(ADMIN, 10, PuzzleCategory::Logic, 5, 0).unwrap();
    let second = c.award_badge(ADMIN, 10, PuzzleCategory::Logic, 12, 0).unwrap();
    assert_eq!(second.badge_id, first.badge_id);
    assert_eq!(second.puzzles_solved, 12);
    assert_eq!(second.level, BadgeLevel::Apprentice);
    assert_eq!(c.get_all_badges(10).len(), 1);
    let stats = c.get_badge_stats(PuzzleCategory::Logic);
    assert_eq!(stats.total_badges, 1);
    assert_eq!(stats.novice_count, 0);
    assert_eq!(stats.apprentice_count, 1);
}
