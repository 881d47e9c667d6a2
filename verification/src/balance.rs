//! The balance ledger's accessors. Balances are maintained incrementally,
//! never recomputed by scanning tokens; the engine's invariant proves that
//! the two always agree.

use vstd::prelude::*;

use crate::contract::NonFungibleToken;
use crate::errors::Error;
use crate::identity::{clone_bytes, Identity};
use crate::model::StateV;

verus! {

/// The direction of a balance adjustment: one up, or one down.
#[derive(Clone, Copy, PartialEq, Eq, Structural)]
pub enum WriteType {
    Add,
    Remove,
}

/// The balance of an identity; 0 for identities never seen.
pub fn read_balance(s: &NonFungibleToken, owner: &Identity) -> (r: i128)
    requires
        s.inv(),
    ensures
        r as int == s@.bal(owner@),
{
    s.balances.get_or_zero(owner.as_bytes())
}

/// Adjust an identity's balance by one. Driving a balance negative is a
/// fatal internal invariant violation, not a normal user error: callers
/// gate every decrement behind a verified ownership check first.
pub fn write_balance(s: &mut NonFungibleToken, owner: &Identity, write_type: WriteType) -> (r:
    Result<(), Error>)
    requires
        old(s).inv(),
        write_type == WriteType::Add ==> old(s)@.bal(owner@) < i128::MAX,
    ensures
        final(s).inv(),
        write_type == WriteType::Add ==> r == Ok::<(), Error>(()) && final(s)@ == (StateV {
            balances: old(s)@.balances.insert(owner@, old(s)@.bal(owner@) + 1),
            ..old(s)@
        }),
        write_type == WriteType::Remove && old(s)@.bal(owner@) <= 0 ==> r == Err::<(), Error>(
            Error::NegativeBalanceInvariantViolation,
        ) && *final(s) == *old(s),
        write_type == WriteType::Remove && old(s)@.bal(owner@) > 0 ==> r == Ok::<(), Error>(())
            && final(s)@ == (StateV {
            balances: old(s)@.balances.insert(owner@, old(s)@.bal(owner@) - 1),
            ..old(s)@
        }),
{
    let bal = s.balances.get_or_zero(owner.as_bytes());
    match write_type {
        WriteType::Add => {
            s.balances.set(clone_bytes(owner.as_bytes()), bal + 1);
            proof {
                assert(s@ =~= (StateV {
                    balances: old(s)@.balances.insert(owner@, old(s)@.bal(owner@) + 1),
                    ..old(s)@
                }));
            }
            Ok(())
        },
        WriteType::Remove => {
            if bal <= 0 {
                Err(Error::NegativeBalanceInvariantViolation)
            } else {
                s.balances.set(clone_bytes(owner.as_bytes()), bal - 1);
                proof {
                    assert(s@ =~= (StateV {
                        balances: old(s)@.balances.insert(owner@, old(s)@.bal(owner@) - 1),
                        ..old(s)@
                    }));
                }
                Ok(())
            }
        },
    }
}

} // verus!
