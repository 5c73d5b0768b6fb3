use peer_learning::badges::contract::SkillBadgeContract;
use peer_learning::badges::types::{BadgeLevel, PuzzleCategory};

fn setup() -> (SkillBadgeContract, u64) {
    let mut client = SkillBadgeContract::new();
    let admin: u64 = 1;
    client.initialize(admin).unwrap();
    (client, admin)
}

#[test]
fn test_test_initialize() {
    let (client, admin) = setup();
    assert_eq!(client.get_admin().unwrap(), admin);
}

#[test]
fn test_award_badge_novice() {
    let (mut client, admin) = setup();
    let player: u64 = 10;

    let badge = client.award_badge(admin, player, PuzzleCategory::Logic, 5u32, 0).unwrap();
    assert_eq!(badge.level, BadgeLevel::Novice);
    assert_eq!(badge.puzzles_solved, 5);
    assert!(badge.xp > 0);
}

#[test]
fn test_award_badge_apprentice() {
    let (mut client, admin) = setup();
    let player: u64 = 10;

    let badge = client.award_badge(admin, player, PuzzleCategory::Math, 15u32, 0).unwrap();
    assert_eq!(badge.level, BadgeLevel::Apprentice);
}

#[test]
fn test_award_badge_practitioner() {
    let (mut client, admin) = setup();
    let player: u64 = 10;

    let badge = client
        .award_badge(admin, player, PuzzleCategory::Cryptography, 50u32, 0)
        .unwrap();
    assert_eq!(badge.level, BadgeLevel::Practitioner);
}

#[test]
fn test_award_badge_expert() {
    let (mut client, admin) = setup();
    let player: u64 = 10;

    let badge = client.award_badge(admin, player, PuzzleCategory::Spatial, 100u32, 0).unwrap();
    assert_eq!(badge.level, BadgeLevel::Expert);
}

#[test]
fn test_award_badge_master() {
    let (mut client, admin) = setup();
    let player: u64 = 10;

    let badge = client.award_badge(admin, player, PuzzleCategory::Strategy, 200u32, 0).unwrap();
    assert_eq!(badge.level, BadgeLevel::Master);
}

#[test]
fn test_award_badge_grandmaster() {
    let (mut client, admin) = setup();
    let player: u64 = 10;

    let badge = client.award_badge(admin, player, PuzzleCategory::Pattern, 350u32, 0).unwrap();
    assert_eq!(badge.level, BadgeLevel::Grandmaster);
}

#[test]
fn test_update_progress_upgrades_level() {
    let (mut client, admin) = setup();
    let player: u64 = 10;

    client.award_badge(admin, player, PuzzleCategory::Logic, 5u32, 0).unwrap();
    let updated = client.update_progress(admin, player, PuzzleCategory::Logic, 15u32, 0).unwrap();

    assert_eq!(updated.level, BadgeLevel::Apprentice);
    assert_eq!(updated.puzzles_solved, 15);
}

#[test]
fn test_update_progress_no_downgrade() {
    let (mut client, admin) = setup();
    let player: u64 = 10;

    client.award_badge(admin, player, PuzzleCategory::Logic, 15u32, 0).unwrap();
    let badge = client.update_progress(admin, player, PuzzleCategory::Logic, 5u32, 0).unwrap();

    assert_eq!(badge.puzzles_solved, 15);
    assert_eq!(badge.level, BadgeLevel::Apprentice);
}

#[test]
fn test_get_all_badges() {
    let (mut client, admin) = setup();
    let player: u64 = 10;

    client.award_badge(admin, player, PuzzleCategory::Logic, 5u32, 0).unwrap();
    client.award_badge(admin, player, PuzzleCategory::Math, 20u32, 0).unwrap();

    let badges = client.get_all_badges(player);
    assert_eq!(badges.len(), 2);
}

#[test]
fn test_issue_credential() {
    let (mut client, admin) = setup();
    let player: u64 = 10;

    client.award_badge(admin, player, PuzzleCategory::Logic, 50u32, 0).unwrap();
    let meta = String::from("Logic Expert Badge - Verified");
    let credential = client
        .issue_credential(admin, player, PuzzleCategory::Logic, meta, 0)
        .unwrap();

    assert_eq!(credential.is_valid, true);
    assert_eq!(credential.player, player);
}

#[test]
fn test_revoke_credential() {
    let (mut client, admin) = setup();
    let player: u64 = 10;

    client.award_badge(admin, player, PuzzleCategory::Math, 30u32, 0).unwrap();
    let meta = String::from("Credential metadata");
    let credential = client
        .issue_credential(admin, player, PuzzleCategory::Math, meta, 0)
        .unwrap();

    client.revoke_credential(admin, credential.credential_id).unwrap();

    let fetched = client.get_credential(credential.credential_id).unwrap();
    assert_eq!(fetched.is_valid, false);
}

#[test]
fn test_get_player_credentials() {
    let (mut client, admin) = setup();
    let player: u64 = 10;

    client.award_badge(admin, player, PuzzleCategory::Logic, 50u32, 0).unwrap();
    client.award_badge(admin, player, PuzzleCategory::Math, 50u32, 0).unwrap();

    let meta1 = String::from("Logic credential");
    let meta2 = String::from("Math credential");

    client.issue_credential(admin, player, PuzzleCategory::Logic, meta1, 0).unwrap();
    client.issue_credential(admin, player, PuzzleCategory::Math, meta2, 0).unwrap();

    let credentials = client.get_player_credentials(player);
    assert_eq!(credentials.len(), 2);
}

#[test]
fn test_get_level_info() {
    let (mut client, admin) = setup();
    let player: u64 = 10;

    client.award_badge(admin, player, PuzzleCategory::Logic, 15u32, 0).unwrap();
    let info = client.get_level_info(player, PuzzleCategory::Logic);

    assert_eq!(info.current_level, BadgeLevel::Apprentice);
    assert_eq!(info.puzzles_solved, 15);
    assert!(!info.is_max_level);
    assert!(info.puzzles_to_next_level > 0);
}

#[test]
fn test_grandmaster_is_max_level() {
    let (mut client, admin) = setup();
    let player: u64 = 10;

    client.award_badge(admin, player, PuzzleCategory::Logic, 350u32, 0).unwrap();
    let info = client.get_level_info(player, PuzzleCategory::Logic);

    assert_eq!(info.is_max_level, true);
    assert_eq!(info.puzzles_to_next_level, 0);
    assert_eq!(info.xp_to_next_level, 0);
}

#[test]
fn test_test_leaderboard_ordering() {
    let (mut client, admin) = setup();
    let player1: u64 = 10;
    let player2: u64 = 11;
    let player3: u64 = 12;

    client.award_badge(admin, player1, PuzzleCategory::Logic, 10u32, 0).unwrap();
    client.award_badge(admin, player2, PuzzleCategory::Logic, 100u32, 0).unwrap();
    client.award_badge(admin, player3, PuzzleCategory::Logic, 50u32, 0).unwrap();

    let board = client.get_leaderboard(PuzzleCategory::Logic, 10u32);
    assert_eq!(board.len(), 3);

    let first = board[0];
    let second = board[1];
    assert!(first.xp >= second.xp);
    assert_eq!(first.rank, 1);
    assert_eq!(second.rank, 2);
}

#[test]
fn test_badge_stats_tracking() {
    let (mut client, admin) = setup();
    let player1: u64 = 10;
    let player2: u64 = 11;

    client.award_badge(admin, player1, PuzzleCategory::Math, 5u32, 0).unwrap();
    client.award_badge(admin, player2, PuzzleCategory::Math, 15u32, 0).unwrap();

    let stats = client.get_badge_stats(PuzzleCategory::Math);
    assert_eq!(stats.total_badges, 2);
    assert_eq!(stats.novice_count, 1);
    assert_eq!(stats.apprentice_count, 1);
}

#[test]
fn test_test_transfer_admin() {
    let (mut client, admin) = setup();
    let new_admin: u64 = 20;

    client.transfer_admin(admin, new_admin).unwrap();
    assert_eq!(client.get_admin().unwrap(), new_admin);
}

#[test]
#[should_panic]
fn test_unauthorized_award_badge() {
    let (mut client, _) = setup();
    let non_admin: u64 = 30;
    let player: u64 = 10;

    client.award_badge(non_admin, player, PuzzleCategory::Logic, 10u32, 0).unwrap();
}

#[test]
#[should_panic]
fn test_double_initialize() {
    let (mut client, admin) = setup();
    client.initialize(admin).unwrap();
}
