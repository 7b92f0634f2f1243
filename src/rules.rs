//! The rules of every operation, stated as functions from the state before
//! to the outcome: an error, or the state after (and the amount to move).
use vstd::prelude::*;

use crate::error::KooPaaError;
use crate::identity::Identity;
use crate::state::{
    AjoParticipant, GlobalState, GroupModel, CREATOR_SECURITY_DEPOSIT, JOINER_SECURITY_DEPOSIT,
    MAX_CONTRIBUTION_INTERVAL, MAX_FEE_PERCENTAGE, MAX_NAME_CHARS, MAX_PARTICIPANTS,
    MAX_PAYOUT_INTERVAL, MIN_CONTRIBUTION_INTERVAL, MIN_PARTICIPANTS, MIN_PAYOUT_INTERVAL,
};

verus! {

/// The registry that `initialize` creates, or why it refuses.
pub open spec fn initialize_outcome(admin: Identity, fee_percentage: u8) -> Result<
    GlobalState,
    KooPaaError,
> {
    if fee_percentage > MAX_FEE_PERCENTAGE {
        Err(KooPaaError::InvalidFeePercentage)
    } else {
        Ok(
            GlobalState {
                admin,
                fee_percentage,
                creator_security_deposit: CREATOR_SECURITY_DEPOSIT,
                joiner_security_deposit: JOINER_SECURITY_DEPOSIT,
                total_groups: 0,
                active_groups: 0,
                completed_groups: 0,
                total_revenue: 0,
            },
        )
    }
}

/// The registry after the administrator sets a new fee, or why it refuses.
pub open spec fn update_fee_outcome(reg: GlobalState, caller: Identity, fee_percentage: u8) -> Result<
    GlobalState,
    KooPaaError,
> {
    if caller != reg.admin {
        Err(KooPaaError::OnlyAdminCanUpdate)
    } else if fee_percentage > MAX_FEE_PERCENTAGE {
        Err(KooPaaError::InvalidFeePercentage)
    } else {
        Ok(GlobalState { fee_percentage, ..reg })
    }
}

/// The first term of a new group that is out of bounds, checked in order.
pub open spec fn group_terms_error(
    name: Seq<char>,
    contribution_amount: u64,
    contribution_interval: u16,
    payout_interval: u16,
    num_participants: u8,
) -> Option<KooPaaError> {
    if contribution_amount == 0 {
        Some(KooPaaError::InvalidContributionAmount)
    } else if !(MIN_CONTRIBUTION_INTERVAL <= contribution_interval <= MAX_CONTRIBUTION_INTERVAL) {
        Some(KooPaaError::InvalidInterval)
    } else if !(MIN_PAYOUT_INTERVAL <= payout_interval <= MAX_PAYOUT_INTERVAL) {
        Some(KooPaaError::InvalidInterval)
    } else if !(MIN_PARTICIPANTS <= num_participants <= MAX_PARTICIPANTS) {
        Some(KooPaaError::InvalidParticipantCount)
    } else if name.len() > MAX_NAME_CHARS {
        Some(KooPaaError::NameTooLong)
    } else {
        None
    }
}

/// A fresh group: the creator holds the first seat, nothing has started,
/// been paid out or voted on.
pub open spec fn new_group(
    reg: GlobalState,
    creator: Identity,
    name: Seq<char>,
    contribution_amount: u64,
    contribution_interval: u16,
    payout_interval: u16,
    num_participants: u8,
) -> GroupModel {
    GroupModel {
        name,
        contribution_amount,
        contribution_interval,
        payout_interval,
        security_deposit: reg.creator_security_deposit,
        num_participants: (num_participants - 1) as u8,
        participants: seq![AjoParticipant { identity: creator, contribution_round: 0 }],
        start_timestamp: None,
        payout_round: 0,
        close_votes: Seq::empty(),
        is_closed: false,
    }
}

/// The new group and registry after `create_ajo_group`, or why it refuses.
pub open spec fn create_outcome(
    reg: GlobalState,
    creator: Identity,
    name: Seq<char>,
    contribution_amount: u64,
    contribution_interval: u16,
    payout_interval: u16,
    num_participants: u8,
) -> Result<(GroupModel, GlobalState), KooPaaError> {
    match group_terms_error(
        name,
        contribution_amount,
        contribution_interval,
        payout_interval,
        num_participants,
    ) {
        Some(e) => Err(e),
        None => Ok(
            (
                new_group(
                    reg,
                    creator,
                    name,
                    contribution_amount,
                    contribution_interval,
                    payout_interval,
                    num_participants,
                ),
                GlobalState { total_groups: reg.total_groups.saturating_add(1), ..reg },
            ),
        ),
    }
}

/// The registry and group after `p` joins at clock reading `now`, or why
/// the group refuses. Filling the last seat starts the group.
pub open spec fn join_outcome(reg: GlobalState, g: GroupModel, p: Identity, now: i64) -> Result<
    (GlobalState, GroupModel),
    KooPaaError,
> {
    if g.is_started() {
        Err(KooPaaError::GroupAlreadyStarted)
    } else if g.participants.len() >= g.target_size() {
        Err(KooPaaError::GroupAlreadyFull)
    } else if g.has_member(p) {
        Err(KooPaaError::AlreadyJoined)
    } else {
        let roster = g.participants.push(AjoParticipant { identity: p, contribution_round: 0 });
        if roster.len() == g.target_size() {
            Ok(
                (
                    GlobalState { active_groups: reg.active_groups.saturating_add(1), ..reg },
                    GroupModel { participants: roster, start_timestamp: Some(now), ..g },
                ),
            )
        } else {
            Ok((reg, GroupModel { participants: roster, ..g }))
        }
    }
}

/// The group after `c` pays every round it owes at `now`, and the amount
/// owed, or why it refuses.
pub open spec fn contribute_outcome(g: GroupModel, c: Identity, now: i64) -> Result<
    (GroupModel, u64),
    KooPaaError,
> {
    if !g.is_started() {
        Err(KooPaaError::GroupNotStarted)
    } else if !g.has_member(c) {
        Err(KooPaaError::NotParticipant)
    } else {
        let i = g.member_index(c);
        let round = g.contribution_round_at(now);
        let paid = g.participants[i].contribution_round;
        let due = g.contribution_amount * (round - paid);
        if paid >= round {
            Err(KooPaaError::AlreadyContributed)
        } else if due > u64::MAX {
            Err(KooPaaError::AmountOverflow)
        } else {
            Ok(
                (
                    GroupModel {
                        participants: g.participants.update(
                            i,
                            AjoParticipant { identity: c, contribution_round: round as u64 },
                        ),
                        ..g
                    },
                    due as u64,
                ),
            )
        }
    }
}

/// Whether every member has paid for the given round.
pub open spec fn all_paid_for(g: GroupModel, round: int) -> bool {
    forall|i: int| 0 <= i < g.participants.len() ==> #[trigger] g.participants[i].contribution_round >= round
}

/// Whether `r` may claim the pool at `now` under the strict policy (every
/// member has paid for the elapsed payout periods): the pool amount, or why
/// not.
pub open spec fn claim_outcome(g: GroupModel, r: Identity, now: i64) -> Result<u64, KooPaaError> {
    if !g.is_started() {
        Err(KooPaaError::GroupNotStarted)
    } else if g.is_closed {
        Err(KooPaaError::GroupAlreadyClosed)
    } else if !g.has_member(r) {
        Err(KooPaaError::NotParticipant)
    } else if g.current_recipient() != r {
        Err(KooPaaError::NotCurrentRecipient)
    } else if !all_paid_for(g, g.payouts_due_at(now)) {
        Err(KooPaaError::NotAllContributed)
    } else if g.pool() > u64::MAX {
        Err(KooPaaError::AmountOverflow)
    } else {
        Ok(g.pool() as u64)
    }
}

/// The group after paying the pool to `r` at `now`, and the pool, or why
/// it refuses.
pub open spec fn payout_outcome(g: GroupModel, r: Identity, now: i64) -> Result<
    (GroupModel, u64),
    KooPaaError,
> {
    if !g.is_started() {
        Err(KooPaaError::GroupNotStarted)
    } else if g.payout_round >= g.payouts_due_at(now) {
        Err(KooPaaError::PayoutNotYetDue)
    } else if g.current_recipient() != r {
        Err(KooPaaError::NotCurrentRecipient)
    } else if g.pool() > u64::MAX {
        Err(KooPaaError::AmountOverflow)
    } else {
        Ok((GroupModel { payout_round: (g.payout_round + 1) as u64, ..g }, g.pool() as u64))
    }
}

/// Whether a group with `members` members and `votes` votes is closed by
/// majority.
pub open spec fn majority(votes: int, members: int) -> bool {
    2 * votes > members
}

/// The registry and group after `p` votes to close, or why it refuses. A
/// strict majority closes the group for good.
pub open spec fn close_outcome(reg: GlobalState, g: GroupModel, p: Identity) -> Result<
    (GlobalState, GroupModel),
    KooPaaError,
> {
    if g.is_closed {
        Err(KooPaaError::GroupAlreadyClosed)
    } else if !g.has_member(p) {
        Err(KooPaaError::NotParticipant)
    } else if g.has_voted(p) {
        Err(KooPaaError::AlreadyVotedToClose)
    } else {
        let votes = g.close_votes.push(p);
        if majority(votes.len() as int, g.participants.len() as int) {
            let reg2 = if g.is_started() {
                GlobalState { active_groups: reg.active_groups.saturating_sub(1), ..reg }
            } else {
                reg
            };
            Ok((reg2, GroupModel { close_votes: votes, is_closed: true, ..g }))
        } else {
            Ok((reg, GroupModel { close_votes: votes, ..g }))
        }
    }
}

} // verus!
