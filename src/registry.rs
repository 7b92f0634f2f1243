//! The registry's lifecycle: creation by an administrator and fee updates.
use vstd::prelude::*;

use crate::error::KooPaaError;
use crate::identity::Identity;
use crate::rules::{initialize_outcome, update_fee_outcome};
use crate::state::{
    GlobalState, CREATOR_SECURITY_DEPOSIT, JOINER_SECURITY_DEPOSIT, MAX_FEE_PERCENTAGE,
};

verus! {

/// Creates the registry with `admin` as administrator: every counter at
/// zero, the fixed deposits, and the given fee, which must be at most 100.
pub fn initialize(admin: Identity, fee_percentage: u8) -> (r: Result<GlobalState, KooPaaError>)
    ensures
        r == initialize_outcome(admin, fee_percentage),
        fee_percentage > 100 ==> r == Err::<GlobalState, KooPaaError>(
            KooPaaError::InvalidFeePercentage,
        ),
        fee_percentage <= 100 ==> (r matches Ok(reg) && reg.fee_percentage == fee_percentage
            && reg.wf()),
{
    if fee_percentage > MAX_FEE_PERCENTAGE {
        return Err(KooPaaError::InvalidFeePercentage);
    }
    Ok(
        GlobalState {
            admin,
            fee_percentage,
            creator_security_deposit: CREATOR_SECURITY_DEPOSIT,
            joiner_security_deposit: JOINER_SECURITY_DEPOSIT,
            total_groups: 0,
            active_groups: 0,
            completed_groups: 0,
            total_revenue: 0,
        },
    )
}

impl GlobalState {
    /// Replaces the fee. Only the administrator may, and only with a fee of
    /// at most 100; groups that exist keep their terms.
    pub fn update_fee(&mut self, caller: Identity, new_fee_percentage: u8) -> (r: Result<
        (),
        KooPaaError,
    >)
        ensures
            match r {
                Ok(()) => update_fee_outcome(*old(self), caller, new_fee_percentage) == Ok::<
                    GlobalState,
                    KooPaaError,
                >(*final(self)),
                Err(e) => update_fee_outcome(*old(self), caller, new_fee_percentage) == Err::<
                    GlobalState,
                    KooPaaError,
                >(e) && *final(self) == *old(self),
            },
            caller != old(self).admin ==> r == Err::<(), KooPaaError>(
                KooPaaError::OnlyAdminCanUpdate,
            ),
            caller == old(self).admin && new_fee_percentage > 100 ==> r == Err::<(), KooPaaError>(
                KooPaaError::InvalidFeePercentage,
            ),
            caller == old(self).admin && new_fee_percentage <= 100 ==> r is Ok
                && final(self).fee_percentage == new_fee_percentage,
    {
        if !caller.same_as(&self.admin) {
            return Err(KooPaaError::OnlyAdminCanUpdate);
        }
        if new_fee_percentage > MAX_FEE_PERCENTAGE {
            return Err(KooPaaError::InvalidFeePercentage);
        }
        self.fee_percentage = new_fee_percentage;
        Ok(())
    }
}

} // verus!
