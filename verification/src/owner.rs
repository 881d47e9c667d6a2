//! The ownership ledger's accessors: read and write a token's owner, the
//! sentinel "no owner" address, and the ownership check every transfer,
//! approval and burn is gated behind.

use vstd::prelude::*;

use crate::contract::NonFungibleToken;
use crate::errors::Error;
use crate::identity::{bytes_eq, bytes_is_sentinel, clone_bytes, sentinel, sentinel_bytes, Identity};
use crate::model::{owner_check, StateV};

verus! {

/// The sentinel identity: all zero bytes, meaning "no owner"/"no operator".
pub fn zero_address() -> (r: Identity)
    ensures
        r@ == sentinel(),
{
    Identity::from_bytes(sentinel_bytes())
}

/// The owner of a token; fails for a token that was never minted.
pub fn read_owner(s: &NonFungibleToken, id: i128) -> (r: Result<Identity, Error>)
    requires
        s.inv(),
    ensures
        match r {
            Ok(o) => s@.owners.contains_key(id as int) && o@ == s@.owners[id as int],
            Err(e) => !s@.owners.contains_key(id as int) && e == Error::UnknownToken,
        },
{
    match s.owners.get(id) {
        Some(o) => Ok(Identity::from_bytes(clone_bytes(o))),
        None => Err(Error::UnknownToken),
    }
}

/// Record `owner` as the owner of token `id`, unconditionally.
pub fn write_owner(s: &mut NonFungibleToken, id: i128, owner: &Identity)
    requires
        old(s).inv(),
    ensures
        final(s).inv(),
        final(s)@ == (StateV { owners: old(s)@.owners.insert(id as int, owner@), ..old(s)@ }),
{
    s.owners.set(id, clone_bytes(owner.as_bytes()));
    proof {
        assert(s@ =~= (StateV { owners: old(s)@.owners.insert(id as int, owner@), ..old(s)@ }));
    }
}

/// The ownership check: the token must be live (minted and not burned), and
/// `auth` must be its current owner.
pub fn check_owner(s: &NonFungibleToken, auth: &Identity, id: i128) -> (r: Result<(), Error>)
    requires
        s.inv(),
    ensures
        r == owner_check(s@, auth@, id as int),
{
    match s.owners.get(id) {
        None => Err(Error::UnknownToken),
        Some(o) => {
            if bytes_is_sentinel(o) {
                Err(Error::UnknownToken)
            } else if !bytes_eq(o, auth.as_bytes()) {
                Err(Error::NotOwner)
            } else {
                Ok(())
            }
        },
    }
}

} // verus!
