use vstd::prelude::*;

use crate::identity::Identity;

verus! {

/// Deposit escrowed from a group's creator, in base units of the token
/// (a token with 6 decimals: 5 whole tokens).
pub const CREATOR_SECURITY_DEPOSIT: u64 = 5_000_000;

/// Deposit escrowed from every member who joins after the creator.
pub const JOINER_SECURITY_DEPOSIT: u64 = 2_000_000;

/// Clock readings are in seconds; intervals are configured in whole days.
pub const SECONDS_PER_DAY: u64 = 86_400;

pub const MAX_FEE_PERCENTAGE: u8 = 100;

pub const MAX_NAME_CHARS: usize = 50;

pub const MIN_CONTRIBUTION_INTERVAL: u16 = 1;

pub const MAX_CONTRIBUTION_INTERVAL: u16 = 90;

pub const MIN_PAYOUT_INTERVAL: u16 = 7;

pub const MAX_PAYOUT_INTERVAL: u16 = 90;

pub const MIN_PARTICIPANTS: u8 = 3;

pub const MAX_PARTICIPANTS: u8 = 20;

/// The registry: settings shared by all groups and aggregate counters.
/// It holds no reference into any group.
#[derive(Clone, Copy, Debug, PartialEq, Eq)]
pub struct GlobalState {
    pub admin: Identity,
    pub fee_percentage: u8,
    pub creator_security_deposit: u64,
    pub joiner_security_deposit: u64,
    pub total_groups: u64,
    pub active_groups: u64,
    pub completed_groups: u64,
    pub total_revenue: u64,
}

impl GlobalState {
    pub open spec fn wf(&self) -> bool {
        self.fee_percentage <= MAX_FEE_PERCENTAGE
    }
}

/// One member's accounting entry inside a group.
#[derive(Clone, Copy, Debug, PartialEq, Eq)]
pub struct AjoParticipant {
    pub identity: Identity,
    /// The highest contribution round this member has paid for.
    pub contribution_round: u64,
}

/// One rotating savings circle.
#[derive(Clone, Debug)]
pub struct AjoGroup {
    pub name: String,
    /// Amount each member owes per contribution round.
    pub contribution_amount: u64,
    /// Length of a contribution round, in days.
    pub contribution_interval: u16,
    /// Length of a payout period, in days.
    pub payout_interval: u16,
    /// The creator's deposit, as charged when the group was created.
    pub security_deposit: u64,
    /// Seats besides the creator's: the roster is full at one more than this.
    pub num_participants: u8,
    /// The roster, in joining order, which is also the payout order.
    pub participants: Vec<AjoParticipant>,
    /// Set once, when the roster becomes full.
    pub start_timestamp: Option<i64>,
    /// Number of payouts made so far.
    pub payout_round: u64,
    pub close_votes: Vec<Identity>,
    pub is_closed: bool,
}

/// The mathematical value of a group.
pub struct GroupModel {
    pub name: Seq<char>,
    pub contribution_amount: u64,
    pub contribution_interval: u16,
    pub payout_interval: u16,
    pub security_deposit: u64,
    pub num_participants: u8,
    pub participants: Seq<AjoParticipant>,
    pub start_timestamp: Option<i64>,
    pub payout_round: u64,
    pub close_votes: Seq<Identity>,
    pub is_closed: bool,
}

impl View for AjoGroup {
    type V = GroupModel;

    open spec fn view(&self) -> GroupModel {
        GroupModel {
            name: self.name@,
            contribution_amount: self.contribution_amount,
            contribution_interval: self.contribution_interval,
            payout_interval: self.payout_interval,
            security_deposit: self.security_deposit,
            num_participants: self.num_participants,
            participants: self.participants@,
            start_timestamp: self.start_timestamp,
            payout_round: self.payout_round,
            close_votes: self.close_votes@,
            is_closed: self.is_closed,
        }
    }
}

impl AjoGroup {
    pub open spec fn wf(&self) -> bool {
        self@.wf()
    }
}

impl GroupModel {
    /// Roster size at which the group starts: the creator plus the seats.
    pub open spec fn target_size(self) -> int {
        self.num_participants + 1
    }

    pub open spec fn is_member_at(self, i: int, id: Identity) -> bool {
        0 <= i < self.participants.len() && self.participants[i].identity == id
    }

    pub open spec fn has_member(self, id: Identity) -> bool {
        exists|i: int| #[trigger] self.is_member_at(i, id)
    }

    /// Where `id` stands in the roster (meaningful when it is a member).
    pub open spec fn member_index(self, id: Identity) -> int {
        choose|i: int| #[trigger] self.is_member_at(i, id)
    }

    pub open spec fn has_voted(self, id: Identity) -> bool {
        self.close_votes.contains(id)
    }

    pub open spec fn is_started(self) -> bool {
        self.start_timestamp is Some
    }

    /// Seconds elapsed between the start and `now`.
    pub open spec fn elapsed(self, now: i64) -> int {
        now - self.start_timestamp->Some_0
    }

    /// The contribution round that is open at `now`, counted from zero.
    pub open spec fn contribution_round_at(self, now: i64) -> int {
        self.elapsed(now) / (self.contribution_interval * SECONDS_PER_DAY)
    }

    /// How many payout periods have fully elapsed at `now`.
    pub open spec fn payouts_due_at(self, now: i64) -> int {
        self.elapsed(now) / (self.payout_interval * SECONDS_PER_DAY)
    }

    /// The member whose turn it is to receive the pool.
    pub open spec fn current_recipient(self) -> Identity {
        self.participants[(self.payout_round as int) % (self.participants.len() as int)].identity
    }

    /// The pool paid out per turn: one contribution from every member.
    pub open spec fn pool(self) -> int {
        self.contribution_amount * self.participants.len()
    }

    /// The clock reading `now` is not earlier than the group's start.
    pub open spec fn clock_at_or_after_start(self, now: i64) -> bool {
        self.start_timestamp matches Some(s) ==> s <= now
    }

    pub open spec fn wf(self) -> bool {
        &&& self.contribution_amount > 0
        &&& MIN_CONTRIBUTION_INTERVAL <= self.contribution_interval <= MAX_CONTRIBUTION_INTERVAL
        &&& MIN_PAYOUT_INTERVAL <= self.payout_interval <= MAX_PAYOUT_INTERVAL
        &&& MIN_PARTICIPANTS - 1 <= self.num_participants <= MAX_PARTICIPANTS - 1
        &&& self.name.len() <= MAX_NAME_CHARS
        &&& 1 <= self.participants.len() <= self.target_size()
        &&& (self.is_started() <==> self.participants.len() == self.target_size())
        &&& forall|i: int, j: int|
            0 <= i < j < self.participants.len() ==> #[trigger] self.participants[i].identity
                != #[trigger] self.participants[j].identity
        &&& self.close_votes.no_duplicates()
        &&& forall|k: int|
            0 <= k < self.close_votes.len() ==> self.has_member(#[trigger] self.close_votes[k])
        &&& !self.is_closed ==> 2 * self.close_votes.len() <= self.participants.len()
    }
}

} // verus!
