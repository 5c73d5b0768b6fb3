use peer_learning::mentorship::contract::PeerLearningContract;
use peer_learning::mentorship::types::{DisputeOutcome, SessionStatus, SkillCategory};

const CONTRACT_ADDRESS: u64 = 1000;

fn setup() -> (PeerLearningContract, u64, u64) {
    let mut client = PeerLearningContract::new(CONTRACT_ADDRESS);
    let admin: u64 = 1;
    let reward_token: u64 = 2;
    client.initialize(admin, reward_token, 500u32).unwrap();
    (client, admin, reward_token)
}

fn default_skills() -> Vec<SkillCategory> {
    vec![SkillCategory::Logic, SkillCategory::Math]
}

fn mint_tokens(client: &mut PeerLearningContract, to: u64, amount: i128) {
    client.token.mint(to, amount);
}

#[test]
fn test_initialize() {
    let (client, admin, reward_token) = setup();
    assert_eq!(client.get_admin().unwrap(), admin);
    assert_eq!(client.get_reward_token().unwrap(), reward_token);
}

#[test]
fn test_register_mentor() {
    let (mut client, _, _) = setup();
    let mentor: u64 = 10;
    let skills = default_skills();

    let profile = client.register_mentor(mentor, skills, 1000i128, 0).unwrap();
    assert_eq!(profile.address, mentor);
    assert_eq!(profile.hourly_rate, 1000);
    assert!(profile.is_active);
    assert_eq!(profile.total_sessions, 0);
}

#[test]
fn test_register_mentee() {
    let (mut client, _, _) = setup();
    let mentee: u64 = 11;

    let profile = client.register_mentee(mentee, 0).unwrap();
    assert_eq!(profile.address, mentee);
    assert!(profile.is_active);
    assert_eq!(profile.total_sessions, 0);
}

#[test]
#[should_panic]
fn test_register_mentor_twice() {
    let (mut client, _, _) = setup();
    let mentor: u64 = 10;

    client.register_mentor(mentor, default_skills(), 1000i128, 0).unwrap();
    client.register_mentor(mentor, default_skills(), 1000i128, 0).unwrap();
}

#[test]
#[should_panic]
fn test_register_mentee_twice() {
    let (mut client, _, _) = setup();
    let mentee: u64 = 11;

    client.register_mentee(mentee, 0).unwrap();
    client.register_mentee(mentee, 0).unwrap();
}

#[test]
fn test_create_session() {
    let (mut client, _, _) = setup();
    let mentor: u64 = 10;
    let mentee: u64 = 11;

    client.register_mentor(mentor, default_skills(), 500i128, 0).unwrap();
    client.register_mentee(mentee, 0).unwrap();
    mint_tokens(&mut client, mentee, 10_000);

    let goal = String::from("Learn logic puzzles");
    let session = client
        .create_session(mentee, mentor, SkillCategory::Logic, goal, 1000i128, 0)
        .unwrap();

    assert_eq!(session.mentor, mentor);
    assert_eq!(session.mentee, mentee);
    assert_eq!(session.reward_amount, 1000);
    assert_eq!(session.status, SessionStatus::Pending);
}

#[test]
fn test_accept_session() {
    let (mut client, _, _) = setup();
    let mentor: u64 = 10;
    let mentee: u64 = 11;

    client.register_mentor(mentor, default_skills(), 500i128, 0).unwrap();
    client.register_mentee(mentee, 0).unwrap();
    mint_tokens(&mut client, mentee, 10_000);

    let goal = String::from("Learn math puzzles");
    let session = client
        .create_session(mentee, mentor, SkillCategory::Math, goal, 1000i128, 0)
        .unwrap();

    let accepted = client.accept_session(mentor, session.session_id, 0).unwrap();
    assert_eq!(accepted.status, SessionStatus::Active);
}

#[test]
fn test_full_session_lifecycle() {
    let (mut client, _, _) = setup();
    let mentor: u64 = 10;
    let mentee: u64 = 11;

    client.register_mentor(mentor, default_skills(), 500i128, 0).unwrap();
    client.register_mentee(mentee, 0).unwrap();
    mint_tokens(&mut client, mentee, 10_000);

    let goal = String::from("Master logic puzzles");
    let session = client
        .create_session(mentee, mentor, SkillCategory::Logic, goal, 2000i128, 0)
        .unwrap();

    client.accept_session(mentor, session.session_id, 0).unwrap();

    let notes = String::from("Covered all core patterns");
    client.submit_completion(mentor, session.session_id, notes).unwrap();

    let feedback = String::from("Very helpful mentor");
    let completed = client
        .verify_completion(mentee, session.session_id, 5u32, feedback, 0)
        .unwrap();

    assert_eq!(completed.status, SessionStatus::Completed);
    assert_eq!(completed.mentor_rating, 5);

    let mentor_profile = client.get_mentor_profile(mentor).unwrap();
    assert_eq!(mentor_profile.completed_sessions, 1);
    assert_eq!(mentor_profile.rating_count, 1);
    assert!(mentor_profile.reputation_score > 0);
}

#[test]
fn test_cancel_pending_session() {
    let (mut client, _, _) = setup();
    let mentor: u64 = 10;
    let mentee: u64 = 11;

    client.register_mentor(mentor, default_skills(), 500i128, 0).unwrap();
    client.register_mentee(mentee, 0).unwrap();
    mint_tokens(&mut client, mentee, 10_000);

    let goal = String::from("Learn spatial puzzles");
    let _ = client.register_mentor(mentor, vec![SkillCategory::Spatial], 500i128, 0);

    let session = client
        .create_session(mentee, mentor, SkillCategory::Logic, goal, 500i128, 0)
        .unwrap();

    let cancelled = client.cancel_session(mentee, session.session_id).unwrap();
    assert_eq!(cancelled.status, SessionStatus::Cancelled);
}

#[test]
fn test_dispute_session() {
    let (mut client, _, _) = setup();
    let mentor: u64 = 10;
    let mentee: u64 = 11;

    client.register_mentor(mentor, default_skills(), 500i128, 0).unwrap();
    client.register_mentee(mentee, 0).unwrap();
    mint_tokens(&mut client, mentee, 10_000);

    let goal = String::from("Logic deep dive");
    let session = client
        .create_session(mentee, mentor, SkillCategory::Logic, goal, 1000i128, 0)
        .unwrap();
    client.accept_session(mentor, session.session_id, 0).unwrap();

    let reason = String::from("Mentor did not cover the agreed material");
    let disputed = client.dispute_session(mentee, session.session_id, reason).unwrap();
    assert_eq!(disputed.status, SessionStatus::Disputed);
}

#[test]
fn test_resolve_dispute_favor_mentor() {
    let (mut client, admin, _) = setup();
    let mentor: u64 = 10;
    let mentee: u64 = 11;

    client.register_mentor(mentor, default_skills(), 500i128, 0).unwrap();
    client.register_mentee(mentee, 0).unwrap();
    mint_tokens(&mut client, mentee, 10_000);

    let goal = String::from("Math challenge");
    let session = client
        .create_session(mentee, mentor, SkillCategory::Math, goal, 1000i128, 0)
        .unwrap();
    client.accept_session(mentor, session.session_id, 0).unwrap();

    let reason = String::from("Dispute reason");
    client.dispute_session(mentee, session.session_id, reason).unwrap();

    let resolved = client
        .resolve_dispute(admin, session.session_id, DisputeOutcome::FavorMentor, 0)
        .unwrap();
    assert_eq!(resolved.status, SessionStatus::Resolved);
    assert_eq!(resolved.dispute_outcome, Some(DisputeOutcome::FavorMentor));
}

#[test]
fn test_resolve_dispute_favor_mentee() {
    let (mut client, admin, _) = setup();
    let mentor: u64 = 10;
    let mentee: u64 = 11;

    client.register_mentor(mentor, default_skills(), 500i128, 0).unwrap();
    client.register_mentee(mentee, 0).unwrap();
    mint_tokens(&mut client, mentee, 10_000);

    let goal = String::from("Math challenge");
    let session = client
        .create_session(mentee, mentor, SkillCategory::Math, goal, 1000i128, 0)
        .unwrap();
    client.accept_session(mentor, session.session_id, 0).unwrap();

    let reason = String::from("Dispute");
    client.dispute_session(mentor, session.session_id, reason).unwrap();

    let resolved = client
        .resolve_dispute(admin, session.session_id, DisputeOutcome::FavorMentee, 0)
        .unwrap();
    assert_eq!(resolved.status, SessionStatus::Resolved);
}

#[test]
fn test_resolve_dispute_split() {
    let (mut client, admin, _) = setup();
    let mentor: u64 = 10;
    let mentee: u64 = 11;

    client.register_mentor(mentor, default_skills(), 500i128, 0).unwrap();
    client.register_mentee(mentee, 0).unwrap();
    mint_tokens(&mut client, mentee, 10_000);

    let goal = String::from("Logic session");
    let session = client
        .create_session(mentee, mentor, SkillCategory::Logic, goal, 2000i128, 0)
        .unwrap();
    client.accept_session(mentor, session.session_id, 0).unwrap();

    let reason = String::from("Split dispute");
    client.dispute_session(mentee, session.session_id, reason).unwrap();

    let resolved = client
        .resolve_dispute(admin, session.session_id, DisputeOutcome::Split, 0)
        .unwrap();
    assert_eq!(resolved.status, SessionStatus::Resolved);
    assert_eq!(resolved.dispute_outcome, Some(DisputeOutcome::Split));
}

#[test]
fn test_leaderboard_ordering() {
    let (mut client, _, _) = setup();
    let mentor1: u64 = 10;
    let mentor2: u64 = 11;
    let mentee: u64 = 12;

    client.register_mentor(mentor1, default_skills(), 500i128, 0).unwrap();
    client.register_mentor(mentor2, default_skills(), 500i128, 0).unwrap();
    client.register_mentee(mentee, 0).unwrap();
    mint_tokens(&mut client, mentee, 100_000);

    let goal = String::from("Session goal");
    let notes = String::from("Done");
    let fb = String::from("Great");

    let s1 = client
        .create_session(mentee, mentor1, SkillCategory::Logic, goal.clone(), 1000i128, 0)
        .unwrap();
    client.accept_session(mentor1, s1.session_id, 0).unwrap();
    client.submit_completion(mentor1, s1.session_id, notes.clone()).unwrap();
    client.verify_completion(mentee, s1.session_id, 5u32, fb.clone(), 0).unwrap();

    let s2 = client
        .create_session(mentee, mentor2, SkillCategory::Math, goal, 1000i128, 0)
        .unwrap();
    client.accept_session(mentor2, s2.session_id, 0).unwrap();
    client.submit_completion(mentor2, s2.session_id, notes).unwrap();
    client.verify_completion(mentee, s2.session_id, 3u32, fb, 0).unwrap();

    let board = client.get_top_mentors(10u32);
    assert_eq!(board.len(), 2);
    let first = board[0];
    let second = board[1];
    assert!(first.reputation_score >= second.reputation_score);
    assert_eq!(first.rank, 1);
}

#[test]
fn test_platform_stats() {
    let (mut client, _, _) = setup();
    let mentor: u64 = 10;
    let mentee: u64 = 11;

    client.register_mentor(mentor, default_skills(), 500i128, 0).unwrap();
    client.register_mentee(mentee, 0).unwrap();
    mint_tokens(&mut client, mentee, 10_000);

    let stats_before = client.get_platform_stats();
    assert_eq!(stats_before.total_mentors, 1);
    assert_eq!(stats_before.total_mentees, 1);

    let goal = String::from("Learn logic");
    let session = client
        .create_session(mentee, mentor, SkillCategory::Logic, goal, 1000i128, 0)
        .unwrap();
    client.accept_session(mentor, session.session_id, 0).unwrap();
    client.submit_completion(mentor, session.session_id, String::from("done")).unwrap();
    client.verify_completion(mentee, session.session_id, 4u32, String::from("good"), 0).unwrap();

    let stats_after = client.get_platform_stats();
    assert_eq!(stats_after.completed_sessions, 1);
    assert!(stats_after.total_rewards_distributed > 0);
    assert!(stats_after.total_fees_collected > 0);
}

#[test]
fn test_transfer_admin() {
    let (mut client, admin, _) = setup();
    let new_admin: u64 = 20;

    client.transfer_admin(admin, new_admin).unwrap();
    assert_eq!(client.get_admin().unwrap(), new_admin);
}

#[test]
fn test_update_platform_fee() {
    let (mut client, admin, _) = setup();
    client.update_platform_fee(admin, 250u32).unwrap();
}

#[test]
#[should_panic]
fn test_fee_exceeds_max() {
    let (mut client, admin, _) = setup();
    client.update_platform_fee(admin, 3001u32).unwrap();
}

#[test]
#[should_panic]
fn test_self_mentorship() {
    let (mut client, _, _) = setup();
    let player: u64 = 10;

    client.register_mentor(player, default_skills(), 500i128, 0).unwrap();
    client.register_mentee(player, 0).unwrap();
    mint_tokens(&mut client, player, 10_000);

    let goal = String::from("Self taught");
    client.create_session(player, player, SkillCategory::Logic, goal, 1000i128, 0).unwrap();
}

#[test]
#[should_panic]
fn test_skill_not_offered() {
    let (mut client, _, _) = setup();
    let mentor: u64 = 10;
    let mentee: u64 = 11;

    client.register_mentor(mentor, vec![SkillCategory::Math], 500i128, 0).unwrap();
    client.register_mentee(mentee, 0).unwrap();
    mint_tokens(&mut client, mentee, 10_000);

    let goal = String::from("Learn cryptography");
    client
        .create_session(mentee, mentor, SkillCategory::Cryptography, goal, 1000i128, 0)
        .unwrap();
}

#[test]
#[should_panic]
fn test_invalid_rating_zero() {
    let (mut client, _, _) = setup();
    let mentor: u64 = 10;
    let mentee: u64 = 11;

    client.register_mentor(mentor, default_skills(), 500i128, 0).unwrap();
    client.register_mentee(mentee, 0).unwrap();
    mint_tokens(&mut client, mentee, 10_000);

    let goal = String::from("Logic session");
    let session = client
        .create_session(mentee, mentor, SkillCategory::Logic, goal, 1000i128, 0)
        .unwrap();
    client.accept_session(mentor, session.session_id, 0).unwrap();
    client.submit_completion(mentor, session.session_id, String::from("done")).unwrap();
    client.verify_completion(mentee, session.session_id, 0u32, String::from("bad"), 0).unwrap();
}

#[test]
#[should_panic]
fn test_unauthorized_dispute_resolution() {
    let (mut client, _, _) = setup();
    let mentor: u64 = 10;
    let mentee: u64 = 11;
    let random: u64 = 12;

    client.register_mentor(mentor, default_skills(), 500i128, 0).unwrap();
    client.register_mentee(mentee, 0).unwrap();
    mint_tokens(&mut client, mentee, 10_000);

    let goal = String::from("Logic session");
    let session = client
        .create_session(mentee, mentor, SkillCategory::Logic, goal, 1000i128, 0)
        .unwrap();
    client.accept_session(mentor, session.session_id, 0).unwrap();

    let reason = String::from("Dispute");
    client.dispute_session(mentee, session.session_id, reason).unwrap();
    client.resolve_dispute(random, session.session_id, DisputeOutcome::Split, 0).unwrap();
}
