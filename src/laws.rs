//! Properties of the group lifecycle that span several operations or hold
//! for every input, proved over the rules that the operations implement.
use vstd::prelude::*;

use crate::error::KooPaaError;
use crate::identity::Identity;
use crate::rules::{close_outcome, contribute_outcome, create_outcome, join_outcome, payout_outcome};
use crate::state::{GlobalState, GroupModel};

verus! {

/// The registry and group after each of `joiners` joins in turn, at the
/// matching clock reading in `times`, or the first refusal.
pub open spec fn join_each(
    reg: GlobalState,
    g: GroupModel,
    joiners: Seq<Identity>,
    times: Seq<i64>,
) -> Result<(GlobalState, GroupModel), KooPaaError>
    decreases joiners.len(),
{
    if joiners.len() == 0 || times.len() == 0 {
        Ok((reg, g))
    } else {
        match join_each(reg, g, joiners.drop_last(), times.drop_last()) {
            Ok((r, h)) => join_outcome(r, h, joiners.last(), times.last()),
            Err(e) => Err(e),
        }
    }
}

proof fn lemma_join_prefix(
    reg: GlobalState,
    g: GroupModel,
    joiners: Seq<Identity>,
    times: Seq<i64>,
    m: int,
)
    requires
        g.participants.len() == 1,
        g.start_timestamp is None,
        joiners.len() == g.num_participants,
        joiners.len() >= 1,
        times.len() == joiners.len(),
        joiners.no_duplicates(),
        forall|i: int| 0 <= i < joiners.len() ==> #[trigger] joiners[i] != g.participants[0].identity,
        reg.active_groups < u64::MAX,
        0 <= m <= joiners.len(),
    ensures
        join_each(reg, g, joiners.take(m), times.take(m)) matches Ok((r, h)) && h.participants.len()
            == m + 1 && h.participants[0].identity == g.participants[0].identity && (forall|i: int|
            0 <= i < m ==> #[trigger] h.participants[i + 1].identity == joiners[i])
            && h.num_participants == g.num_participants && (m < joiners.len() ==> r == reg
            && h.start_timestamp is None) && (m == joiners.len() ==> h.start_timestamp == Some(
            times[m - 1],
        ) && r.active_groups == reg.active_groups + 1),
    decreases m,
{
    if m == 0 {
        assert(joiners.take(0) =~= Seq::<Identity>::empty());
    } else {
        lemma_join_prefix(reg, g, joiners, times, m - 1);
        assert(joiners.take(m).drop_last() =~= joiners.take(m - 1));
        assert(times.take(m).drop_last() =~= times.take(m - 1));
        let (r, h) = join_each(reg, g, joiners.take(m - 1), times.take(m - 1))->Ok_0;
        let p = joiners[m - 1];
        assert(joiners.take(m).last() == p);
        assert(!h.has_member(p)) by {
            if h.has_member(p) {
                let i = choose|i: int| #[trigger] h.is_member_at(i, p);
                if i > 0 {
                    assert(h.participants[(i - 1) + 1].identity == joiners[i - 1]);
                }
            }
        }
        let (r2, h2) = join_each(reg, g, joiners.take(m), times.take(m))->Ok_0;
        assert forall|i: int| 0 <= i < m implies #[trigger] h2.participants[i + 1].identity
            == joiners[i] by {
            if i < m - 1 {
                assert(h.participants[i + 1].identity == joiners[i]);
            }
        }
    }
}

/// Once a group is created, each of the remaining seats can be filled by a
/// distinct newcomer; the group stays unstarted, and the registry unchanged,
/// until the last seat is filled. That join starts the group at its own
/// clock reading and adds exactly one to the registry's active count; any
/// later join is refused because the group has started.
pub proof fn law_group_starts_when_full(
    reg0: GlobalState,
    creator: Identity,
    name: Seq<char>,
    contribution_amount: u64,
    contribution_interval: u16,
    payout_interval: u16,
    num_participants: u8,
    joiners: Seq<Identity>,
    times: Seq<i64>,
    late: Identity,
    late_time: i64,
)
    requires
        create_outcome(
            reg0,
            creator,
            name,
            contribution_amount,
            contribution_interval,
            payout_interval,
            num_participants,
        ) is Ok,
        joiners.len() == num_participants - 1,
        times.len() == joiners.len(),
        joiners.no_duplicates(),
        forall|i: int| 0 <= i < joiners.len() ==> #[trigger] joiners[i] != creator,
        reg0.active_groups < u64::MAX,
    ensures
        ({
            let (g, reg) = create_outcome(
                reg0,
                creator,
                name,
                contribution_amount,
                contribution_interval,
                payout_interval,
                num_participants,
            )->Ok_0;
            &&& forall|m: int|
                0 <= m < joiners.len() ==> (#[trigger] join_each(
                    reg,
                    g,
                    joiners.take(m),
                    times.take(m),
                ) matches Ok((r, h)) && r == reg && h.start_timestamp is None)
            &&& join_each(reg, g, joiners, times) matches Ok((r, h)) && h.start_timestamp == Some(
                times.last(),
            ) && r.active_groups == reg.active_groups + 1 && join_outcome(r, h, late, late_time)
                == Err::<(GlobalState, GroupModel), KooPaaError>(KooPaaError::GroupAlreadyStarted)
        }),
{
    let (g, reg) = create_outcome(
        reg0,
        creator,
        name,
        contribution_amount,
        contribution_interval,
        payout_interval,
        num_participants,
    )->Ok_0;
    assert forall|m: int| 0 <= m < joiners.len() implies (#[trigger] join_each(
        reg,
        g,
        joiners.take(m),
        times.take(m),
    ) matches Ok((r, h)) && r == reg && h.start_timestamp is None) by {
        lemma_join_prefix(reg, g, joiners, times, m);
    }
    lemma_join_prefix(reg, g, joiners, times, joiners.len() as int);
    assert(joiners.take(joiners.len() as int) =~= joiners);
    assert(times.take(times.len() as int) =~= times);
}

/// A member who owes rounds can pay them once; a second payment before the
/// next contribution round opens is refused.
pub proof fn law_one_contribution_per_round(g: GroupModel, c: Identity, now: i64, later: i64)
    requires
        g.wf(),
        g.is_started(),
        g.clock_at_or_after_start(now),
        now <= later,
        g.contribution_round_at(later) == g.contribution_round_at(now),
        g.has_member(c),
        g.participants[g.member_index(c)].contribution_round < g.contribution_round_at(now),
        g.contribution_amount * (g.contribution_round_at(now)
            - g.participants[g.member_index(c)].contribution_round) <= u64::MAX,
    ensures
        contribute_outcome(g, c, now) matches Ok((h, amount)) && contribute_outcome(h, c, later)
            == Err::<(GroupModel, u64), KooPaaError>(KooPaaError::AlreadyContributed),
{
    let i = g.member_index(c);
    let (h, amount) = contribute_outcome(g, c, now)->Ok_0;
    assert(h.is_member_at(i, c));
    assert(h.member_index(c) == i) by {
        let j = h.member_index(c);
        assert(h.is_member_at(j, c));
        if j != i {
            assert(g.participants[j].identity == h.participants[j].identity);
            assert(g.participants[i].identity == g.participants[j].identity);
        }
    }
}

/// A member whose last paid round lies `k` rounds behind the open one pays
/// exactly `k` contributions at once, and is then paid up to the open round.
pub proof fn law_catch_up_payment(g: GroupModel, c: Identity, now: i64, k: int)
    requires
        g.wf(),
        g.is_started(),
        g.clock_at_or_after_start(now),
        g.has_member(c),
        k >= 1,
        g.contribution_round_at(now) == g.participants[g.member_index(c)].contribution_round + k,
        g.contribution_amount * k <= u64::MAX,
    ensures
        contribute_outcome(g, c, now) matches Ok((h, amount)) && amount == k
            * g.contribution_amount && h.participants[g.member_index(c)].contribution_round
            == g.contribution_round_at(now),
{
}

/// A payout goes to the member at position `payout_round` modulo the roster
/// size and advances the rotation by one. When it settles the last period
/// that had elapsed, a second payout before the next period elapses is
/// refused as not yet due, whoever asks.
pub proof fn law_payout_rotation(
    g: GroupModel,
    recipient: Identity,
    now: i64,
    other: Identity,
    later: i64,
)
    requires
        g.wf(),
        g.clock_at_or_after_start(now),
        payout_outcome(g, recipient, now) is Ok,
    ensures
        recipient == g.participants[(g.payout_round as int) % (g.participants.len() as int)].identity,
        payout_outcome(g, recipient, now) matches Ok((h, amount)) && h.payout_round == g.payout_round
            + 1 && amount == g.contribution_amount * g.participants.len() && (now <= later
            && g.payouts_due_at(now) == g.payout_round + 1 && g.payouts_due_at(later)
            == g.payouts_due_at(now) ==> payout_outcome(h, other, later) == Err::<
            (GroupModel, u64),
            KooPaaError,
        >(KooPaaError::PayoutNotYetDue)),
{
}

/// With `N` members, a vote closes the group exactly when it is the vote
/// that takes the count above `N / 2`; once closed, every further vote is
/// refused.
pub proof fn law_majority_closes(reg: GlobalState, g: GroupModel, voter: Identity, late: Identity)
    requires
        g.wf(),
        !g.is_closed,
        g.has_member(voter),
        !g.has_voted(voter),
    ensures
        close_outcome(reg, g, voter) matches Ok((r, h)) && h.close_votes.len()
            == g.close_votes.len() + 1 && h.is_closed == (2 * h.close_votes.len()
            > g.participants.len()) && (h.is_closed ==> close_outcome(r, h, late) == Err::<
            (GlobalState, GroupModel),
            KooPaaError,
        >(KooPaaError::GroupAlreadyClosed)),
{
}

/// Closure is permanent: from a closed group every operation is either
/// refused or leaves the group closed, and no vote is accepted any more.
pub proof fn law_closure_is_permanent(reg: GlobalState, g: GroupModel, who: Identity, now: i64)
    requires
        g.is_closed,
    ensures
        join_outcome(reg, g, who, now) matches Ok((r, h)) ==> h.is_closed,
        contribute_outcome(g, who, now) matches Ok((h, amount)) ==> h.is_closed,
        payout_outcome(g, who, now) matches Ok((h, amount)) ==> h.is_closed,
        close_outcome(reg, g, who) == Err::<(GlobalState, GroupModel), KooPaaError>(
            KooPaaError::GroupAlreadyClosed,
        ),
{
}

} // verus!
