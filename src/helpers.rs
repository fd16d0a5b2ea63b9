//! The arithmetic of an account's lifecycle: funding a new account up to the
//! minimum balance, and reclaiming an account's balance.
use vstd::prelude::*;

verus! {

/// The balances of an account and of its refund target after the account is
/// reclaimed: every lamport moves to the refund target. Fails where the
/// target's balance would pass `u64::MAX`.
pub fn delete_pda(account_lamports: u64, refund_lamports: u64) -> (r: Result<(u64, u64), ()>)
    ensures
        account_lamports + refund_lamports <= u64::MAX ==> r == Ok::<(u64, u64), ()>(
            (0u64, (account_lamports + refund_lamports) as u64),
        ),
        account_lamports + refund_lamports > u64::MAX ==> r is Err,
{
    match refund_lamports.checked_add(account_lamports) {
        Some(total) => Ok((0, total)),
        None => Err(()),
    }
}

/// The lamports that the payer must move to a new account holding `lamports`
/// so that it reaches `rent_minimum`. Fails where the account already holds
/// data and may not be overwritten.
pub fn create_owned_funded_sized_pda(
    data_is_empty: bool,
    overwrite: bool,
    lamports: u64,
    rent_minimum: u64,
) -> (r: Result<u64, ()>)
    ensures
        !(data_is_empty || overwrite) ==> r is Err,
        (data_is_empty || overwrite) && lamports < rent_minimum ==> r == Ok::<u64, ()>(
            (rent_minimum - lamports) as u64,
        ),
        (data_is_empty || overwrite) && lamports >= rent_minimum ==> r == Ok::<u64, ()>(0),
{
    if !(data_is_empty || overwrite) {
        return Err(());
    }
    if lamports < rent_minimum {
        Ok(rent_minimum - lamports)
    } else {
        Ok(0)
    }
}

} // verus!
