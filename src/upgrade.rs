use vstd::prelude::*;
use crate::errors::SavingsError;
use crate::ledger::{LedgerView, NesteraContract};
use crate::types::UserId;

verus! {

/// The version of the code that this library is.
pub const CONTRACT_VERSION: u32 = 1;

/// The version recorded by the last upgrade, 0 before any.
pub fn get_version(ledger: &NesteraContract) -> (r: u32)
    ensures
        r == ledger@.version,
{
    ledger.version
}

pub fn set_version(ledger: &mut NesteraContract, version: u32)
    requires
        old(ledger)@.wf(),
    ensures
        final(ledger)@.wf(),
        final(ledger)@ == (LedgerView { version, ..old(ledger)@ }),
{
    ledger.version = version;
}

/// Records an upgrade to `CONTRACT_VERSION`; admin only, and only from an older version.
/// Installing the new code itself is the host's part.
pub fn upgrade_contract(ledger: &mut NesteraContract, admin: UserId) -> (r: Result<(), SavingsError>)
    requires
        old(ledger)@.wf(),
    ensures
        final(ledger)@.wf(),
        !old(ledger)@.is_admin(admin) ==> r == Err::<(), SavingsError>(SavingsError::Unauthorized),
        old(ledger)@.is_admin(admin) && old(ledger)@.version >= CONTRACT_VERSION
            ==> r == Err::<(), SavingsError>(SavingsError::InvalidState),
        r is Ok <==> old(ledger)@.is_admin(admin) && old(ledger)@.version < CONTRACT_VERSION,
        r is Ok ==> final(ledger)@ == (LedgerView { version: CONTRACT_VERSION, ..old(ledger)@ }),
        r is Err ==> final(ledger)@ == old(ledger)@,
{
    if ledger.admin != Some(admin) {
        return Err(SavingsError::Unauthorized);
    }
    if CONTRACT_VERSION <= ledger.version {
        return Err(SavingsError::InvalidState);
    }
    set_version(ledger, CONTRACT_VERSION);
    Ok(())
}

} // verus!
