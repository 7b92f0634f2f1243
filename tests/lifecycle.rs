use koopa::state::{
    CREATOR_SECURITY_DEPOSIT, JOINER_SECURITY_DEPOSIT, SECONDS_PER_DAY,
};
use koopa::{
    claim_round, close_ajo_group, contribute, create_ajo_group, initialize, join_ajo_group,
    payout, AjoGroup, GlobalState, Identity, KooPaaError,
};

const DAY: i64 = SECONDS_PER_DAY as i64;
const T0: i64 = 1_700_000_000;

fn id(n: u8) -> Identity {
    let mut bytes = [0u8; 32];
    bytes[0] = n;
    bytes[31] = n.wrapping_mul(7);
    Identity::new(bytes)
}

fn registry() -> GlobalState {
    initialize(id(100), 5).unwrap()
}

/// Creates a group of `size` members with member `i` holding identity `id(i)`,
/// joining at `T0`.
fn full_group(reg: &mut GlobalState, size: u8, amount: u64, ci: u16, pi: u16) -> AjoGroup {
    let mut g = create_ajo_group(reg, id(0), "circle".to_string(), amount, ci, pi, size).unwrap();
    for i in 1..size {
        join_ajo_group(reg, &mut g, id(i), T0).unwrap();
    }
    g
}

#[test]
fn initialize_sets_fee_and_counters() {
    let reg = initialize(id(1), 100).unwrap();
    assert_eq!(reg.fee_percentage, 100);
    assert_eq!(reg.admin, id(1));
    assert_eq!(reg.total_groups, 0);
    assert_eq!(reg.active_groups, 0);
    assert_eq!(reg.completed_groups, 0);
    assert_eq!(reg.total_revenue, 0);
    assert_eq!(reg.creator_security_deposit, 5_000_000);
    assert_eq!(reg.joiner_security_deposit, 2_000_000);
    assert_eq!(initialize(id(1), 0).unwrap().fee_percentage, 0);
}

#[test]
fn initialize_rejects_fee_above_100() {
    assert_eq!(initialize(id(1), 101), Err(KooPaaError::InvalidFeePercentage));
    assert_eq!(initialize(id(1), 255), Err(KooPaaError::InvalidFeePercentage));
}

#[test]
fn update_fee_by_admin() {
    let mut reg = registry();
    assert_eq!(reg.update_fee(id(100), 42), Ok(()));
    assert_eq!(reg.fee_percentage, 42);
    assert_eq!(reg.update_fee(id(100), 101), Err(KooPaaError::InvalidFeePercentage));
    assert_eq!(reg.fee_percentage, 42);
}

#[test]
fn update_fee_by_other_is_refused() {
    let mut reg = registry();
    assert_eq!(reg.update_fee(id(3), 10), Err(KooPaaError::OnlyAdminCanUpdate));
    assert_eq!(reg.update_fee(id(3), 200), Err(KooPaaError::OnlyAdminCanUpdate));
    assert_eq!(reg.fee_percentage, 5);
}

#[test]
fn create_group_initial_state() {
    let mut reg = registry();
    let g = create_ajo_group(&mut reg, id(0), "circle".to_string(), 100, 7, 7, 3).unwrap();
    assert_eq!(g.name, "circle");
    assert_eq!(g.num_participants, 2);
    assert_eq!(g.participants.len(), 1);
    assert_eq!(g.participants[0].identity, id(0));
    assert_eq!(g.participants[0].contribution_round, 0);
    assert_eq!(g.start_timestamp, None);
    assert_eq!(g.payout_round, 0);
    assert!(g.close_votes.is_empty());
    assert!(!g.is_closed);
    assert_eq!(g.security_deposit, CREATOR_SECURITY_DEPOSIT);
    assert_eq!(reg.total_groups, 1);
    assert!(g.is_well_formed());
}

#[test]
fn create_group_validation() {
    let mut reg = registry();
    let name = || "circle".to_string();
    assert_eq!(
        create_ajo_group(&mut reg, id(0), name(), 0, 7, 7, 3).err(),
        Some(KooPaaError::InvalidContributionAmount)
    );
    assert_eq!(create_ajo_group(&mut reg, id(0), name(), 1, 0, 7, 3).err(), Some(KooPaaError::InvalidInterval));
    assert_eq!(create_ajo_group(&mut reg, id(0), name(), 1, 91, 7, 3).err(), Some(KooPaaError::InvalidInterval));
    assert_eq!(create_ajo_group(&mut reg, id(0), name(), 1, 1, 6, 3).err(), Some(KooPaaError::InvalidInterval));
    assert_eq!(create_ajo_group(&mut reg, id(0), name(), 1, 1, 91, 3).err(), Some(KooPaaError::InvalidInterval));
    assert_eq!(
        create_ajo_group(&mut reg, id(0), name(), 1, 1, 7, 2).err(),
        Some(KooPaaError::InvalidParticipantCount)
    );
    assert_eq!(
        create_ajo_group(&mut reg, id(0), name(), 1, 1, 7, 21).err(),
        Some(KooPaaError::InvalidParticipantCount)
    );
    assert_eq!(
        create_ajo_group(&mut reg, id(0), "x".repeat(51), 1, 1, 7, 3).err(),
        Some(KooPaaError::NameTooLong)
    );
    // Earlier checks win when several terms are out of bounds.
    assert_eq!(
        create_ajo_group(&mut reg, id(0), "x".repeat(51), 0, 0, 0, 0).err(),
        Some(KooPaaError::InvalidContributionAmount)
    );
    assert_eq!(reg.total_groups, 0);
    // Bounds are inclusive.
    assert!(create_ajo_group(&mut reg, id(0), "x".repeat(50), 1, 1, 7, 3).is_ok());
    assert!(create_ajo_group(&mut reg, id(0), name(), u64::MAX, 90, 90, 20).is_ok());
    // The name limit counts characters, not bytes.
    assert!(create_ajo_group(&mut reg, id(0), "é".repeat(50), 1, 1, 7, 3).is_ok());
    assert_eq!(reg.total_groups, 3);
}

#[test]
fn group_starts_when_last_seat_filled() {
    let mut reg = registry();
    let mut g = create_ajo_group(&mut reg, id(0), "circle".to_string(), 100, 7, 7, 4).unwrap();
    assert_eq!(join_ajo_group(&mut reg, &mut g, id(1), T0), Ok(JOINER_SECURITY_DEPOSIT));
    assert_eq!(g.start_timestamp, None);
    assert_eq!(join_ajo_group(&mut reg, &mut g, id(2), T0 + 5), Ok(JOINER_SECURITY_DEPOSIT));
    assert_eq!(g.start_timestamp, None);
    assert_eq!(reg.active_groups, 0);
    assert_eq!(join_ajo_group(&mut reg, &mut g, id(3), T0 + 9), Ok(JOINER_SECURITY_DEPOSIT));
    assert_eq!(g.start_timestamp, Some(T0 + 9));
    assert_eq!(reg.active_groups, 1);
    assert_eq!(g.participants.len(), 4);
    assert_eq!(g.participants[3].identity, id(3));
    assert_eq!(join_ajo_group(&mut reg, &mut g, id(4), T0 + 10), Err(KooPaaError::GroupAlreadyStarted));
    assert_eq!(g.start_timestamp, Some(T0 + 9));
    assert_eq!(reg.active_groups, 1);
    assert!(g.is_well_formed());
}

#[test]
fn join_twice_is_refused() {
    let mut reg = registry();
    let mut g = create_ajo_group(&mut reg, id(0), "circle".to_string(), 100, 7, 7, 5).unwrap();
    assert_eq!(join_ajo_group(&mut reg, &mut g, id(0), T0), Err(KooPaaError::AlreadyJoined));
    join_ajo_group(&mut reg, &mut g, id(1), T0).unwrap();
    assert_eq!(join_ajo_group(&mut reg, &mut g, id(1), T0), Err(KooPaaError::AlreadyJoined));
    assert_eq!(g.participants.len(), 2);
}

#[test]
fn contribute_before_start_is_refused() {
    let mut reg = registry();
    let mut g = create_ajo_group(&mut reg, id(0), "circle".to_string(), 100, 7, 7, 3).unwrap();
    assert_eq!(contribute(&mut g, id(0), T0), Err(KooPaaError::GroupNotStarted));
}

#[test]
fn contribute_by_outsider_is_refused() {
    let mut reg = registry();
    let mut g = full_group(&mut reg, 3, 100, 7, 7);
    assert_eq!(contribute(&mut g, id(9), T0 + 7 * DAY), Err(KooPaaError::NotParticipant));
}

#[test]
fn contribute_once_per_round() {
    let mut reg = registry();
    let mut g = full_group(&mut reg, 3, 100, 7, 7);
    // Round zero is open at the start: nothing is owed yet.
    assert_eq!(contribute(&mut g, id(1), T0), Err(KooPaaError::AlreadyContributed));
    assert_eq!(contribute(&mut g, id(1), T0 + 7 * DAY), Ok(100));
    assert_eq!(g.participants[1].contribution_round, 1);
    assert_eq!(contribute(&mut g, id(1), T0 + 7 * DAY + 3), Err(KooPaaError::AlreadyContributed));
    assert_eq!(contribute(&mut g, id(1), T0 + 14 * DAY - 1), Err(KooPaaError::AlreadyContributed));
    assert_eq!(contribute(&mut g, id(1), T0 + 14 * DAY), Ok(100));
}

#[test]
fn skipped_rounds_are_paid_in_one_sum() {
    let mut reg = registry();
    let mut g = full_group(&mut reg, 3, 250, 2, 7);
    // Five contribution rounds of two days have elapsed.
    assert_eq!(contribute(&mut g, id(2), T0 + 10 * DAY + 100), Ok(5 * 250));
    assert_eq!(g.participants[2].contribution_round, 5);
    // Three more rounds skipped.
    assert_eq!(contribute(&mut g, id(2), T0 + 16 * DAY), Ok(3 * 250));
    assert_eq!(g.participants[2].contribution_round, 8);
}

#[test]
fn contribution_overflow_is_refused() {
    let mut reg = registry();
    let mut g = full_group(&mut reg, 3, u64::MAX / 2 + 1, 1, 7);
    assert_eq!(contribute(&mut g, id(0), T0 + DAY), Ok(u64::MAX / 2 + 1));
    assert_eq!(contribute(&mut g, id(1), T0 + 2 * DAY), Err(KooPaaError::AmountOverflow));
    assert_eq!(g.participants[1].contribution_round, 0);
}

#[test]
fn end_to_end_first_payout() {
    let mut reg = registry();
    let mut g = create_ajo_group(&mut reg, id(0), "circle".to_string(), 100, 7, 7, 3).unwrap();
    join_ajo_group(&mut reg, &mut g, id(1), T0).unwrap();
    join_ajo_group(&mut reg, &mut g, id(2), T0).unwrap();
    assert_eq!(g.start_timestamp, Some(T0));
    let now = T0 + 7 * DAY;
    assert_eq!(payout(&mut g, id(0), now), Ok(300));
    assert_eq!(g.payout_round, 1);
    assert_eq!(payout(&mut g, id(1), now), Err(KooPaaError::PayoutNotYetDue));
    assert_eq!(payout(&mut g, id(0), now), Err(KooPaaError::PayoutNotYetDue));
    assert_eq!(g.payout_round, 1);
}

#[test]
fn payout_rotation_wraps_around() {
    let mut reg = registry();
    let mut g = full_group(&mut reg, 3, 10, 7, 7);
    assert_eq!(payout(&mut g, id(0), T0 + 7 * DAY - 1), Err(KooPaaError::PayoutNotYetDue));
    for r in 0..7u64 {
        let now = T0 + (r as i64 + 1) * 7 * DAY;
        let turn = (r % 3) as u8;
        let wrong = ((r + 1) % 3) as u8;
        assert_eq!(payout(&mut g, id(wrong), now), Err(KooPaaError::NotCurrentRecipient));
        assert_eq!(payout(&mut g, id(turn), now), Ok(30));
        assert_eq!(g.payout_round, r + 1);
    }
}

#[test]
fn payout_catches_up_when_behind() {
    let mut reg = registry();
    let mut g = full_group(&mut reg, 3, 10, 7, 7);
    let now = T0 + 21 * DAY;
    assert_eq!(payout(&mut g, id(0), now), Ok(30));
    assert_eq!(payout(&mut g, id(1), now), Ok(30));
    assert_eq!(payout(&mut g, id(2), now), Ok(30));
    assert_eq!(payout(&mut g, id(0), now), Err(KooPaaError::PayoutNotYetDue));
}

#[test]
fn payout_before_start_is_refused() {
    let mut reg = registry();
    let mut g = create_ajo_group(&mut reg, id(0), "circle".to_string(), 100, 7, 7, 3).unwrap();
    assert_eq!(payout(&mut g, id(0), T0), Err(KooPaaError::GroupNotStarted));
}

#[test]
fn payout_overflow_is_refused() {
    let mut reg = registry();
    let mut g = full_group(&mut reg, 3, u64::MAX / 2, 7, 7);
    assert_eq!(payout(&mut g, id(0), T0 + 7 * DAY), Err(KooPaaError::AmountOverflow));
    assert_eq!(g.payout_round, 0);
}

#[test]
fn claim_requires_everyone_paid() {
    let mut reg = registry();
    let mut g = full_group(&mut reg, 3, 100, 7, 7);
    let now = T0 + 7 * DAY;
    assert_eq!(claim_round(&g, id(1), now), Err(KooPaaError::NotCurrentRecipient));
    assert_eq!(claim_round(&g, id(9), now), Err(KooPaaError::NotParticipant));
    assert_eq!(claim_round(&g, id(0), now), Err(KooPaaError::NotAllContributed));
    for i in 0..3 {
        contribute(&mut g, id(i), now).unwrap();
    }
    assert_eq!(claim_round(&g, id(0), now), Ok(300));
    // The check changes nothing.
    assert_eq!(g.payout_round, 0);
}

#[test]
fn claim_before_start_or_after_close_is_refused() {
    let mut reg = registry();
    let mut g = create_ajo_group(&mut reg, id(0), "circle".to_string(), 100, 7, 7, 3).unwrap();
    assert_eq!(claim_round(&g, id(0), T0), Err(KooPaaError::GroupNotStarted));
    join_ajo_group(&mut reg, &mut g, id(1), T0).unwrap();
    join_ajo_group(&mut reg, &mut g, id(2), T0).unwrap();
    close_ajo_group(&mut reg, &mut g, id(0)).unwrap();
    close_ajo_group(&mut reg, &mut g, id(1)).unwrap();
    assert_eq!(claim_round(&g, id(0), T0), Err(KooPaaError::GroupAlreadyClosed));
}

#[test]
fn three_members_close_on_second_vote() {
    let mut reg = registry();
    let mut g = full_group(&mut reg, 3, 100, 7, 7);
    assert_eq!(reg.active_groups, 1);
    assert_eq!(close_ajo_group(&mut reg, &mut g, id(0)), Ok(false));
    assert_eq!(close_ajo_group(&mut reg, &mut g, id(0)), Err(KooPaaError::AlreadyVotedToClose));
    assert_eq!(close_ajo_group(&mut reg, &mut g, id(7)), Err(KooPaaError::NotParticipant));
    assert_eq!(close_ajo_group(&mut reg, &mut g, id(1)), Ok(true));
    assert!(g.is_closed);
    assert_eq!(reg.active_groups, 0);
    assert_eq!(close_ajo_group(&mut reg, &mut g, id(2)), Err(KooPaaError::GroupAlreadyClosed));
    assert_eq!(g.close_votes.len(), 2);
}

#[test]
fn four_members_close_on_third_vote() {
    let mut reg = registry();
    let mut g = full_group(&mut reg, 4, 100, 7, 7);
    assert_eq!(close_ajo_group(&mut reg, &mut g, id(3)), Ok(false));
    assert_eq!(close_ajo_group(&mut reg, &mut g, id(1)), Ok(false));
    assert!(!g.is_closed);
    assert_eq!(close_ajo_group(&mut reg, &mut g, id(2)), Ok(true));
    assert_eq!(close_ajo_group(&mut reg, &mut g, id(0)), Err(KooPaaError::GroupAlreadyClosed));
    assert_eq!(reg.active_groups, 0);
}

#[test]
fn closing_unstarted_group_keeps_active_count() {
    let mut reg = registry();
    let mut other = full_group(&mut reg, 3, 100, 7, 7);
    assert_eq!(reg.active_groups, 1);
    let mut g = create_ajo_group(&mut reg, id(0), "second".to_string(), 100, 7, 7, 5).unwrap();
    join_ajo_group(&mut reg, &mut g, id(1), T0).unwrap();
    assert_eq!(close_ajo_group(&mut reg, &mut g, id(0)), Ok(false));
    assert_eq!(close_ajo_group(&mut reg, &mut g, id(1)), Ok(true));
    assert_eq!(reg.active_groups, 1);
    assert!(other.is_well_formed());
    assert_eq!(close_ajo_group(&mut reg, &mut other, id(2)), Ok(false));
}

#[test]
fn identity_comparison() {
    assert!(id(4).same_as(&id(4)));
    assert!(!id(4).same_as(&id(5)));
    let mut a = [9u8; 32];
    let b = Identity::new(a);
    a[31] = 8;
    assert!(!b.same_as(&Identity::new(a)));
}

#[test]
fn well_formedness_check_rejects_broken_state() {
    let mut reg = registry();
    let g = full_group(&mut reg, 3, 100, 7, 7);
    assert!(g.is_well_formed());
    let mut dup = g.clone();
    dup.participants[2].identity = id(0);
    assert!(!dup.is_well_formed());
    let mut unstarted = g.clone();
    unstarted.start_timestamp = None;
    assert!(!unstarted.is_well_formed());
    let mut stranger = g.clone();
    stranger.close_votes.push(id(42));
    assert!(!stranger.is_well_formed());
    let mut twice = g.clone();
    twice.is_closed = true;
    twice.close_votes.push(id(1));
    twice.close_votes.push(id(1));
    assert!(!twice.is_well_formed());
    let mut majority = g.clone();
    majority.close_votes.push(id(1));
    majority.close_votes.push(id(2));
    assert!(!majority.is_well_formed());
    majority.is_closed = true;
    assert!(majority.is_well_formed());
}
