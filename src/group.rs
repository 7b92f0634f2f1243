//! The group state machine: creation, admission, contributions, the payout
//! rotation and closure by vote. Each operation checks its preconditions
//! first; a refusal changes nothing. On success it commits the new state and
//! returns the amount that must be moved with it.
use vstd::prelude::*;

use crate::error::KooPaaError;
use crate::identity::Identity;
use crate::rules::{
    all_paid_for, claim_outcome, close_outcome, contribute_outcome, create_outcome,
    join_outcome, majority, payout_outcome,
};
use crate::state::{
    AjoGroup, AjoParticipant, GlobalState, GroupModel, MAX_CONTRIBUTION_INTERVAL, MAX_NAME_CHARS,
    MAX_PARTICIPANTS, MAX_PAYOUT_INTERVAL, MIN_CONTRIBUTION_INTERVAL, MIN_PARTICIPANTS,
    MIN_PAYOUT_INTERVAL, SECONDS_PER_DAY,
};

verus! {

/// Finds `id` in the roster.
fn find_member(participants: &Vec<AjoParticipant>, id: &Identity) -> (r: Option<usize>)
    ensures
        match r {
            Some(i) => i < participants@.len() && participants@[i as int].identity == *id,
            None => forall|i: int|
                0 <= i < participants@.len() ==> #[trigger] participants@[i].identity != *id,
        },
{
    let mut i: usize = 0;
    while i < participants.len()
        invariant
            0 <= i <= participants@.len(),
            forall|j: int| 0 <= j < i ==> #[trigger] participants@[j].identity != *id,
        decreases participants@.len() - i,
    {
        if participants[i].identity.same_as(id) {
            return Some(i);
        }
        i = i + 1;
    }
    None
}

/// Whether `id` is among the close votes.
fn has_vote(votes: &Vec<Identity>, id: &Identity) -> (r: bool)
    ensures
        r == votes@.contains(*id),
{
    let mut i: usize = 0;
    while i < votes.len()
        invariant
            0 <= i <= votes@.len(),
            forall|j: int| 0 <= j < i ==> #[trigger] votes@[j] != *id,
        decreases votes@.len() - i,
    {
        if votes[i].same_as(id) {
            assert(votes@[i as int] == *id);
            return true;
        }
        i = i + 1;
    }
    false
}

/// Number of whole periods of `interval_days` days between `start` and `now`.
fn periods_elapsed(start: i64, now: i64, interval_days: u16) -> (r: u64)
    requires
        start <= now,
        interval_days >= 1,
    ensures
        r == (now - start) / (interval_days * SECONDS_PER_DAY),
{
    let elapsed: u64 = (now as i128 - start as i128) as u64;
    let period: u64 = interval_days as u64 * SECONDS_PER_DAY;
    elapsed / period
}

/// The pool of one payout: one contribution per member, if it fits.
fn pool_of(group: &AjoGroup) -> (r: Option<u64>)
    ensures
        match r {
            Some(p) => p == group@.pool(),
            None => group@.pool() > u64::MAX,
        },
{
    group.contribution_amount.checked_mul(group.participants.len() as u64)
}

/// Votes of members stay votes of members while the roster keeps every
/// identity in its place (and perhaps grows).
proof fn lemma_votes_stay_members(g0: GroupModel, g1: GroupModel)
    requires
        forall|k: int| 0 <= k < g0.close_votes.len() ==> g0.has_member(#[trigger] g0.close_votes[k]),
        g1.close_votes == g0.close_votes,
        g0.participants.len() <= g1.participants.len(),
        forall|k: int|
            0 <= k < g0.participants.len() ==> #[trigger] g1.participants[k].identity
                == g0.participants[k].identity,
    ensures
        forall|k: int| 0 <= k < g1.close_votes.len() ==> g1.has_member(#[trigger] g1.close_votes[k]),
{
    assert forall|k: int| 0 <= k < g1.close_votes.len() implies g1.has_member(
        #[trigger] g1.close_votes[k],
    ) by {
        let j = choose|j: int| g0.is_member_at(j, g0.close_votes[k]);
        assert(g1.is_member_at(j, g1.close_votes[k]));
    }
}

/// Where `id` stands in the roster, given that it stands at `i`.
proof fn lemma_member_index(g: GroupModel, id: Identity, i: int)
    requires
        g.wf(),
        g.is_member_at(i, id),
    ensures
        g.has_member(id),
        g.member_index(id) == i,
{
    assert(g.is_member_at(i, id));
    let j = g.member_index(id);
    assert(g.is_member_at(j, id));
}

/// Whether no identity appears twice in the roster.
fn roster_is_distinct(participants: &Vec<AjoParticipant>) -> (r: bool)
    ensures
        r == (forall|i: int, j: int|
            0 <= i < j < participants@.len() ==> #[trigger] participants@[i].identity
                != #[trigger] participants@[j].identity),
{
    let n = participants.len();
    let mut j: usize = 0;
    while j < n
        invariant
            n == participants@.len(),
            0 <= j <= n,
            forall|a: int, b: int|
                0 <= a < b < j ==> #[trigger] participants@[a].identity
                    != #[trigger] participants@[b].identity,
        decreases n - j,
    {
        let mut i: usize = 0;
        while i < j
            invariant
                n == participants@.len(),
                0 <= i <= j < n,
                forall|a: int| 0 <= a < i ==> #[trigger] participants@[a].identity
                    != participants@[j as int].identity,
            decreases j - i,
        {
            if participants[i].identity.same_as(&participants[j].identity) {
                assert(participants@[i as int].identity == participants@[j as int].identity);
                return false;
            }
            i = i + 1;
        }
        j = j + 1;
    }
    true
}

/// Whether no identity appears twice among the votes.
fn votes_are_distinct(votes: &Vec<Identity>) -> (r: bool)
    ensures
        r == votes@.no_duplicates(),
{
    let n = votes.len();
    let mut j: usize = 0;
    while j < n
        invariant
            n == votes@.len(),
            0 <= j <= n,
            forall|a: int, b: int| 0 <= a < b < j ==> #[trigger] votes@[a] != #[trigger] votes@[b],
        decreases n - j,
    {
        let mut i: usize = 0;
        while i < j
            invariant
                n == votes@.len(),
                0 <= i <= j < n,
                forall|a: int| 0 <= a < i ==> #[trigger] votes@[a] != votes@[j as int],
            decreases j - i,
        {
            if votes[i].same_as(&votes[j]) {
                return false;
            }
            i = i + 1;
        }
        j = j + 1;
    }
    assert forall|a: int, b: int|
        0 <= a < votes@.len() && 0 <= b < votes@.len() && a != b implies votes@[a] != votes@[b] by {
        if a > b {
            assert(votes@[b] != votes@[a]);
        }
    }
    true
}

impl AjoGroup {
    /// Checks the invariant that every operation on a group relies on, for
    /// a group whose state comes from outside (storage, a message).
    pub fn is_well_formed(&self) -> (r: bool)
        ensures
            r == self.wf(),
    {
        let ghost g = self@;
        if !(self.contribution_amount > 0 && MIN_CONTRIBUTION_INTERVAL <= self.contribution_interval
            && self.contribution_interval <= MAX_CONTRIBUTION_INTERVAL && MIN_PAYOUT_INTERVAL
            <= self.payout_interval && self.payout_interval <= MAX_PAYOUT_INTERVAL
            && MIN_PARTICIPANTS - 1 <= self.num_participants && self.num_participants
            <= MAX_PARTICIPANTS - 1) {
            return false;
        }
        if self.name.as_str().unicode_len() > MAX_NAME_CHARS {
            return false;
        }
        let len = self.participants.len();
        let target = self.num_participants as usize + 1;
        if !(1 <= len && len <= target) {
            return false;
        }
        if self.start_timestamp.is_some() != (len == target) {
            return false;
        }
        if !roster_is_distinct(&self.participants) {
            return false;
        }
        if !votes_are_distinct(&self.close_votes) {
            return false;
        }
        let mut k: usize = 0;
        while k < self.close_votes.len()
            invariant
                g == self@,
                0 <= k <= g.close_votes.len(),
                forall|a: int| 0 <= a < k ==> g.has_member(#[trigger] g.close_votes[a]),
            decreases g.close_votes.len() - k,
        {
            match find_member(&self.participants, &self.close_votes[k]) {
                Some(i) => {
                    assert(g.is_member_at(i as int, g.close_votes[k as int]));
                },
                None => {
                    assert(!g.has_member(g.close_votes[k as int]));
                    return false;
                },
            }
            k = k + 1;
        }
        if !self.is_closed && self.close_votes.len() > len / 2 {
            return false;
        }
        true
    }
}

/// Creates a group whose creator holds the first seat. On success the
/// creator's deposit, `security_deposit` of the new group, is to be escrowed
/// with it. The terms are checked in order: a positive contribution amount,
/// a contribution interval of 1 to 90 days, a payout interval of 7 to 90
/// days, 3 to 20 members, a name of at most 50 characters.
pub fn create_ajo_group(
    global_state: &mut GlobalState,
    creator: Identity,
    name: String,
    contribution_amount: u64,
    contribution_interval: u16,
    payout_interval: u16,
    num_participants: u8,
) -> (r: Result<AjoGroup, KooPaaError>)
    ensures
        match r {
            Ok(group) => create_outcome(
                *old(global_state),
                creator,
                name@,
                contribution_amount,
                contribution_interval,
                payout_interval,
                num_participants,
            ) == Ok::<_, KooPaaError>((group@, *final(global_state))),
            Err(e) => create_outcome(
                *old(global_state),
                creator,
                name@,
                contribution_amount,
                contribution_interval,
                payout_interval,
                num_participants,
            ) == Err::<(GroupModel, GlobalState), KooPaaError>(e) && *final(global_state)
                == *old(global_state),
        },
        r is Err <==> (contribution_amount == 0 || !(1 <= contribution_interval <= 90) || !(7
            <= payout_interval <= 90) || !(3 <= num_participants <= 20) || name@.len() > 50),
        r matches Ok(group) ==> group.wf() && group.security_deposit
            == old(global_state).creator_security_deposit,
{
    if contribution_amount == 0 {
        return Err(KooPaaError::InvalidContributionAmount);
    }
    if !(MIN_CONTRIBUTION_INTERVAL <= contribution_interval
        && contribution_interval <= MAX_CONTRIBUTION_INTERVAL) {
        return Err(KooPaaError::InvalidInterval);
    }
    if !(MIN_PAYOUT_INTERVAL <= payout_interval && payout_interval <= MAX_PAYOUT_INTERVAL) {
        return Err(KooPaaError::InvalidInterval);
    }
    if !(MIN_PARTICIPANTS <= num_participants && num_participants <= MAX_PARTICIPANTS) {
        return Err(KooPaaError::InvalidParticipantCount);
    }
    if name.as_str().unicode_len() > MAX_NAME_CHARS {
        return Err(KooPaaError::NameTooLong);
    }
    let mut participants: Vec<AjoParticipant> = Vec::new();
    participants.push(AjoParticipant { identity: creator, contribution_round: 0 });
    let group = AjoGroup {
        name,
        contribution_amount,
        contribution_interval,
        payout_interval,
        security_deposit: global_state.creator_security_deposit,
        num_participants: num_participants - 1,
        participants,
        start_timestamp: None,
        payout_round: 0,
        close_votes: Vec::new(),
        is_closed: false,
    };
    global_state.total_groups = global_state.total_groups.saturating_add(1);
    assert(group@.participants =~= seq![AjoParticipant { identity: creator, contribution_round: 0 }]);
    assert(group@.close_votes =~= Seq::<Identity>::empty());
    Ok(group)
}

/// Admits `participant` at clock reading `now`. On success the joiner's
/// deposit, which the result gives, is to be escrowed with it. Filling the
/// last seat starts the group at `now` and counts it as active.
pub fn join_ajo_group(
    global_state: &mut GlobalState,
    group: &mut AjoGroup,
    participant: Identity,
    now: i64,
) -> (r: Result<u64, KooPaaError>)
    requires
        old(group).wf(),
    ensures
        final(group).wf(),
        match r {
            Ok(deposit) => {
                &&& join_outcome(*old(global_state), old(group)@, participant, now)
                    == Ok::<_, KooPaaError>((*final(global_state), final(group)@))
                &&& deposit == old(global_state).joiner_security_deposit
            },
            Err(e) => {
                &&& join_outcome(*old(global_state), old(group)@, participant, now) == Err::<(GlobalState, GroupModel), KooPaaError>(e)
                &&& *final(global_state) == *old(global_state)
                &&& final(group)@ == old(group)@
            },
        },
{
    let ghost g0 = group@;
    if group.start_timestamp.is_some() {
        return Err(KooPaaError::GroupAlreadyStarted);
    }
    if group.participants.len() >= group.num_participants as usize + 1 {
        return Err(KooPaaError::GroupAlreadyFull);
    }
    if let Some(i) = find_member(&group.participants, &participant) {
        proof {
            assert(g0.is_member_at(i as int, participant));
        }
        return Err(KooPaaError::AlreadyJoined);
    }
    assert(!g0.has_member(participant));
    group.participants.push(AjoParticipant { identity: participant, contribution_round: 0 });
    if group.participants.len() == group.num_participants as usize + 1 {
        group.start_timestamp = Some(now);
        global_state.active_groups = global_state.active_groups.saturating_add(1);
    }
    proof {
        let g1 = group@;
        lemma_votes_stay_members(g0, g1);
        assert forall|a: int, b: int| 0 <= a < b < g1.participants.len() implies
            #[trigger] g1.participants[a].identity != #[trigger] g1.participants[b].identity by {
            if b == g0.participants.len() {
                assert(!g0.is_member_at(a, participant));
            }
        }
    }
    Ok(global_state.joiner_security_deposit)
}

/// Pays, at clock reading `now`, every contribution round that
/// `contributor` owes: the rounds elapsed since the last one they paid for.
/// The result is the amount to move from the contributor into the vault.
pub fn contribute(group: &mut AjoGroup, contributor: Identity, now: i64) -> (r: Result<
    u64,
    KooPaaError,
>)
    requires
        old(group).wf(),
        old(group)@.clock_at_or_after_start(now),
    ensures
        final(group).wf(),
        match r {
            Ok(amount) => contribute_outcome(old(group)@, contributor, now) == Ok::<_, KooPaaError>(
                (final(group)@, amount),
            ),
            Err(e) => {
                &&& contribute_outcome(old(group)@, contributor, now) == Err::<(GroupModel, u64), KooPaaError>(e)
                &&& final(group)@ == old(group)@
            },
        },
{
    let ghost g0 = group@;
    let start = match group.start_timestamp {
        Some(s) => s,
        None => {
            return Err(KooPaaError::GroupNotStarted);
        },
    };
    let i = match find_member(&group.participants, &contributor) {
        Some(i) => i,
        None => {
            assert(!g0.has_member(contributor));
            return Err(KooPaaError::NotParticipant);
        },
    };
    proof {
        lemma_member_index(g0, contributor, i as int);
    }
    let round = periods_elapsed(start, now, group.contribution_interval);
    let paid = group.participants[i].contribution_round;
    if paid >= round {
        return Err(KooPaaError::AlreadyContributed);
    }
    let due = match group.contribution_amount.checked_mul(round - paid) {
        Some(d) => d,
        None => {
            return Err(KooPaaError::AmountOverflow);
        },
    };
    group.participants[i] = AjoParticipant { identity: contributor, contribution_round: round };
    proof {
        let g1 = group@;
        assert forall|k: int| 0 <= k < g1.participants.len() implies
            #[trigger] g1.participants[k].identity == g0.participants[k].identity by {}
        lemma_votes_stay_members(g0, g1);
    }
    Ok(due)
}

/// Checks, without changing anything, whether `recipient` may claim the
/// pool at `now` under the strict policy that every member has paid for the
/// payout periods elapsed so far. The result is the pool amount.
pub fn claim_round(group: &AjoGroup, recipient: Identity, now: i64) -> (r: Result<u64, KooPaaError>)
    requires
        group.wf(),
        group@.clock_at_or_after_start(now),
    ensures
        r == claim_outcome(group@, recipient, now),
{
    let ghost g = group@;
    let start = match group.start_timestamp {
        Some(s) => s,
        None => {
            return Err(KooPaaError::GroupNotStarted);
        },
    };
    if group.is_closed {
        return Err(KooPaaError::GroupAlreadyClosed);
    }
    match find_member(&group.participants, &recipient) {
        Some(i) => {
            assert(g.is_member_at(i as int, recipient));
        },
        None => {
            assert(!g.has_member(recipient));
            return Err(KooPaaError::NotParticipant);
        },
    }
    let turn = (group.payout_round % (group.participants.len() as u64)) as usize;
    assert(turn as int == (g.payout_round as int) % (g.participants.len() as int));
    if !group.participants[turn].identity.same_as(&recipient) {
        return Err(KooPaaError::NotCurrentRecipient);
    }
    let round = periods_elapsed(start, now, group.payout_interval);
    assert(round == g.payouts_due_at(now));
    let mut k: usize = 0;
    while k < group.participants.len()
        invariant
            g == group@,
            round == g.payouts_due_at(now),
            g.is_started() && !g.is_closed && g.has_member(recipient),
            g.current_recipient() == recipient,
            0 <= k <= g.participants.len(),
            forall|j: int| 0 <= j < k ==> #[trigger] g.participants[j].contribution_round >= round,
        decreases g.participants.len() - k,
    {
        if group.participants[k].contribution_round < round {
            assert(!all_paid_for(g, g.payouts_due_at(now))) by {
                assert(g.participants[k as int].contribution_round < round);
            }
            return Err(KooPaaError::NotAllContributed);
        }
        k = k + 1;
    }
    match pool_of(group) {
        Some(p) => Ok(p),
        None => Err(KooPaaError::AmountOverflow),
    }
}

/// Pays the pool to `recipient` at clock reading `now`, when a payout is
/// due and it is their turn in the rotation. The result is the amount to
/// move from the vault to the recipient; the rotation then advances by one.
pub fn payout(group: &mut AjoGroup, recipient: Identity, now: i64) -> (r: Result<u64, KooPaaError>)
    requires
        old(group).wf(),
        old(group)@.clock_at_or_after_start(now),
    ensures
        final(group).wf(),
        match r {
            Ok(amount) => payout_outcome(old(group)@, recipient, now) == Ok::<_, KooPaaError>(
                (final(group)@, amount),
            ),
            Err(e) => {
                &&& payout_outcome(old(group)@, recipient, now) == Err::<(GroupModel, u64), KooPaaError>(e)
                &&& final(group)@ == old(group)@
            },
        },
{
    let start = match group.start_timestamp {
        Some(s) => s,
        None => {
            return Err(KooPaaError::GroupNotStarted);
        },
    };
    let due = periods_elapsed(start, now, group.payout_interval);
    if group.payout_round >= due {
        return Err(KooPaaError::PayoutNotYetDue);
    }
    let turn = (group.payout_round % (group.participants.len() as u64)) as usize;
    assert(turn as int == (group@.payout_round as int) % (group@.participants.len() as int));
    if !group.participants[turn].identity.same_as(&recipient) {
        return Err(KooPaaError::NotCurrentRecipient);
    }
    let amount = match pool_of(group) {
        Some(p) => p,
        None => {
            return Err(KooPaaError::AmountOverflow);
        },
    };
    let ghost g0 = group@;
    group.payout_round = group.payout_round + 1;
    proof {
        let g1 = group@;
        lemma_votes_stay_members(g0, g1);
    }
    Ok(amount)
}

/// Records `participant`'s vote to close. The result tells whether this
/// vote made a strict majority, which closes the group for good; closing a
/// started group takes it off the registry's active count.
pub fn close_ajo_group(
    global_state: &mut GlobalState,
    group: &mut AjoGroup,
    participant: Identity,
) -> (r: Result<bool, KooPaaError>)
    requires
        old(group).wf(),
    ensures
        final(group).wf(),
        match r {
            Ok(closed) => close_outcome(*old(global_state), old(group)@, participant) == Ok::<_, KooPaaError>(
                (*final(global_state), final(group)@),
            ) && closed == final(group).is_closed,
            Err(e) => {
                &&& close_outcome(*old(global_state), old(group)@, participant) == Err::<(GlobalState, GroupModel), KooPaaError>(e)
                &&& *final(global_state) == *old(global_state)
                &&& final(group)@ == old(group)@
            },
        },
{
    let ghost g0 = group@;
    if group.is_closed {
        return Err(KooPaaError::GroupAlreadyClosed);
    }
    let i = match find_member(&group.participants, &participant) {
        Some(i) => i,
        None => {
            assert(!g0.has_member(participant));
            return Err(KooPaaError::NotParticipant);
        },
    };
    assert(g0.is_member_at(i as int, participant));
    if has_vote(&group.close_votes, &participant) {
        return Err(KooPaaError::AlreadyVotedToClose);
    }
    group.close_votes.push(participant);
    let votes = group.close_votes.len() as u64;
    let members = group.participants.len() as u64;
    if 2 * votes > members {
        if group.start_timestamp.is_some() {
            global_state.active_groups = global_state.active_groups.saturating_sub(1);
        }
        group.is_closed = true;
    }
    proof {
        let g1 = group@;
        assert(g1.close_votes =~= g0.close_votes.push(participant));
        assert forall|k: int| 0 <= k < g1.close_votes.len() implies g1.has_member(
            #[trigger] g1.close_votes[k],
        ) by {
            if k < g0.close_votes.len() {
                assert(g0.has_member(g0.close_votes[k]));
                let j = choose|j: int| g0.is_member_at(j, g0.close_votes[k]);
                assert(g1.is_member_at(j, g1.close_votes[k]));
            } else {
                assert(g1.is_member_at(i as int, g1.close_votes[k]));
            }
        }
        assert(majority(votes as int, members as int) == (2 * votes > members));
    }
    Ok(group.is_closed)
}

} // verus!
