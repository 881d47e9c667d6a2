//! The ledger's laws: properties that relate whole transitions, stated over
//! the model and proved once and for all.

use vstd::prelude::*;

use crate::auth::{ArgV, AuthV, Method};
use crate::errors::Error;
use crate::identity::sentinel;
use crate::model::{
    appr_all_tr, appr_tr, burn_tr, call_payload, gate, initialize_tr, mint_tr, owner_check,
    set_admin_tr, xfer_from_tr, xfer_tr, Gate, StateV,
};

verus! {

/// At every well-formed state, the balance of every identity other than the
/// sentinel equals the number of tokens it owns. Since the engine is created
/// well-formed and every transition preserves well-formedness, this holds at
/// every reachable state.
pub proof fn lemma_balance_counts_ownership(s: StateV, i: Seq<u8>)
    requires
        s.wf(),
        i != sentinel(),
    ensures
        s.bal(i) == s.owned(i).len(),
{
}

/// Replaying an identical signed transfer (same nonce, same signature) a
/// second time fails with `NonceMismatch` and leaves the state unchanged.
pub proof fn lemma_replay_xfer(s: StateV, auth: AuthV, nonce: int, to: Seq<u8>, id: int)
    requires
        auth is Ed25519,
        xfer_tr(s, auth, nonce, to, id).1 == Ok::<(), Error>(()),
    ensures
        xfer_tr(xfer_tr(s, auth, nonce, to, id).0, auth, nonce, to, id).0 == xfer_tr(
            s,
            auth,
            nonce,
            to,
            id,
        ).0,
        xfer_tr(xfer_tr(s, auth, nonce, to, id).0, auth, nonce, to, id).1 == Err::<(), Error>(
            Error::NonceMismatch,
        ),
{
    let pk = auth.identity();
    let s1 = xfer_tr(s, auth, nonce, to, id).0;
    assert(nonce == s.nonce_of(pk));
    assert(s1.nonce_of(pk) == nonce + 1);
}

/// Replaying an identical signed transfer-from a second time fails with
/// `NonceMismatch` and leaves the state unchanged.
pub proof fn lemma_replay_xfer_from(
    s: StateV,
    auth: AuthV,
    nonce: int,
    from: Seq<u8>,
    to: Seq<u8>,
    id: int,
)
    requires
        auth is Ed25519,
        xfer_from_tr(s, auth, nonce, from, to, id).1 == Ok::<(), Error>(()),
    ensures
        xfer_from_tr(xfer_from_tr(s, auth, nonce, from, to, id).0, auth, nonce, from, to, id).0
            == xfer_from_tr(s, auth, nonce, from, to, id).0,
        xfer_from_tr(xfer_from_tr(s, auth, nonce, from, to, id).0, auth, nonce, from, to, id).1
            == Err::<(), Error>(Error::NonceMismatch),
{
    let pk = auth.identity();
    let s1 = xfer_from_tr(s, auth, nonce, from, to, id).0;
    assert(nonce == s.nonce_of(pk));
    assert(s1.nonce_of(pk) == nonce + 1);
}

/// Replaying an identical signed mint a second time fails with
/// `NonceMismatch` and leaves the state unchanged, whatever URI either call
/// would assign.
pub proof fn lemma_replay_mint(
    s: StateV,
    auth: AuthV,
    nonce: int,
    to: Seq<u8>,
    id: int,
    u1: Seq<u8>,
    u2: Seq<u8>,
)
    requires
        auth is Ed25519,
        mint_tr(s, auth, nonce, to, id, u1).1 == Ok::<(), Error>(()),
    ensures
        mint_tr(mint_tr(s, auth, nonce, to, id, u1).0, auth, nonce, to, id, u2).0 == mint_tr(
            s,
            auth,
            nonce,
            to,
            id,
            u1,
        ).0,
        mint_tr(mint_tr(s, auth, nonce, to, id, u1).0, auth, nonce, to, id, u2).1 == Err::<
            (),
            Error,
        >(Error::NonceMismatch),
{
    let pk = auth.identity();
    let s1 = mint_tr(s, auth, nonce, to, id, u1).0;
    assert(nonce == s.nonce_of(pk));
    assert(s1.nonce_of(pk) == nonce + 1);
}

/// Replaying an identical signed burn a second time fails with
/// `NonceMismatch` and leaves the state unchanged.
pub proof fn lemma_replay_burn(s: StateV, auth: AuthV, nonce: int, id: int)
    requires
        auth is Ed25519,
        burn_tr(s, auth, nonce, id).1 == Ok::<(), Error>(()),
    ensures
        burn_tr(burn_tr(s, auth, nonce, id).0, auth, nonce, id).0 == burn_tr(s, auth, nonce, id).0,
        burn_tr(burn_tr(s, auth, nonce, id).0, auth, nonce, id).1 == Err::<(), Error>(
            Error::NonceMismatch,
        ),
{
    let pk = auth.identity();
    let s1 = burn_tr(s, auth, nonce, id).0;
    assert(nonce == s.nonce_of(pk));
    assert(s1.nonce_of(pk) == nonce + 1);
}

/// Replaying an identical signed approval a second time fails with
/// `NonceMismatch` and leaves the state unchanged.
pub proof fn lemma_replay_appr(s: StateV, auth: AuthV, nonce: int, operator: Seq<u8>, id: int)
    requires
        auth is Ed25519,
        appr_tr(s, auth, nonce, operator, id).1 == Ok::<(), Error>(()),
    ensures
        appr_tr(appr_tr(s, auth, nonce, operator, id).0, auth, nonce, operator, id).0 == appr_tr(
            s,
            auth,
            nonce,
            operator,
            id,
        ).0,
        appr_tr(appr_tr(s, auth, nonce, operator, id).0, auth, nonce, operator, id).1 == Err::<
            (),
            Error,
        >(Error::NonceMismatch),
{
    let pk = auth.identity();
    let s1 = appr_tr(s, auth, nonce, operator, id).0;
    assert(nonce == s.nonce_of(pk));
    assert(s1.nonce_of(pk) == nonce + 1);
}

/// Replaying an identical signed approve-all a second time fails with
/// `NonceMismatch` and leaves the state unchanged.
pub proof fn lemma_replay_appr_all(
    s: StateV,
    auth: AuthV,
    nonce: int,
    operator: Seq<u8>,
    approved: bool,
)
    requires
        auth is Ed25519,
        appr_all_tr(s, auth, nonce, operator, approved).1 == Ok::<(), Error>(()),
    ensures
        appr_all_tr(appr_all_tr(s, auth, nonce, operator, approved).0, auth, nonce, operator,
            approved).0 == appr_all_tr(s, auth, nonce, operator, approved).0,
        appr_all_tr(appr_all_tr(s, auth, nonce, operator, approved).0, auth, nonce, operator,
            approved).1 == Err::<(), Error>(Error::NonceMismatch),
{
    let pk = auth.identity();
    let s1 = appr_all_tr(s, auth, nonce, operator, approved).0;
    assert(nonce == s.nonce_of(pk));
    assert(s1.nonce_of(pk) == nonce + 1);
}

/// Replaying an identical signed administrator rotation a second time fails
/// with `NonceMismatch` and leaves the state unchanged.
pub proof fn lemma_replay_set_admin(s: StateV, auth: AuthV, nonce: int, new_admin: Seq<u8>)
    requires
        auth is Ed25519,
        set_admin_tr(s, auth, nonce, new_admin).1 == Ok::<(), Error>(()),
    ensures
        set_admin_tr(set_admin_tr(s, auth, nonce, new_admin).0, auth, nonce, new_admin).0
            == set_admin_tr(s, auth, nonce, new_admin).0,
        set_admin_tr(set_admin_tr(s, auth, nonce, new_admin).0, auth, nonce, new_admin).1 == Err::<
            (),
            Error,
        >(Error::NonceMismatch),
{
    let pk = auth.identity();
    let s1 = set_admin_tr(s, auth, nonce, new_admin).0;
    assert(nonce == s.nonce_of(pk));
    assert(s1.nonce_of(pk) == nonce + 1);
}

/// After any successful transfer, the token's approved operator is the
/// sentinel identity.
pub proof fn lemma_transfer_clears_approval(s: StateV, auth: AuthV, nonce: int, to: Seq<u8>, id: int)
    requires
        xfer_tr(s, auth, nonce, to, id).1 == Ok::<(), Error>(()),
    ensures
        xfer_tr(s, auth, nonce, to, id).0.approved_of(id) == sentinel(),
{
}

/// After any successful transfer-from, the token's approved operator is the
/// sentinel identity.
pub proof fn lemma_transfer_from_clears_approval(
    s: StateV,
    auth: AuthV,
    nonce: int,
    from: Seq<u8>,
    to: Seq<u8>,
    id: int,
)
    requires
        xfer_from_tr(s, auth, nonce, from, to, id).1 == Ok::<(), Error>(()),
    ensures
        xfer_from_tr(s, auth, nonce, from, to, id).0.approved_of(id) == sentinel(),
{
}

/// A transfer-from whose spender is neither the token's approved operator
/// nor in the owner's approve-all set fails with `NotApproved`, and the
/// state — owner and balances included — is unchanged.
pub proof fn lemma_unapproved_transfer_from_rejected(
    s: StateV,
    auth: AuthV,
    nonce: int,
    from: Seq<u8>,
    to: Seq<u8>,
    id: int,
)
    requires
        gate(
            s,
            auth,
            nonce,
            call_payload(
                s,
                Method::TransferFrom,
                seq![
                    ArgV::Id(auth.identity()),
                    ArgV::Int(nonce),
                    ArgV::Id(from),
                    ArgV::Id(to),
                    ArgV::Int(id),
                ],
            ),
        ) == Gate::Pass,
        owner_check(s, from, id) == Ok::<(), Error>(()),
        auth.identity() != s.approved_of(id),
        !s.approved_all_of(from, auth.identity()),
    ensures
        xfer_from_tr(s, auth, nonce, from, to, id).0 == s,
        xfer_from_tr(s, auth, nonce, from, to, id).1 == Err::<(), Error>(Error::NotApproved),
{
}

/// A burn whose signer is not the administrator fails with `NotAdmin`, and
/// the state is unchanged.
pub proof fn lemma_burn_non_admin_rejected(s: StateV, auth: AuthV, nonce: int, id: int)
    requires
        gate(
            s,
            auth,
            nonce,
            call_payload(
                s,
                Method::Burn,
                seq![ArgV::Id(auth.identity()), ArgV::Int(nonce), ArgV::Int(id)],
            ),
        ) == Gate::Pass,
        s.admin is Some,
        s.admin != Some(auth.identity()),
    ensures
        burn_tr(s, auth, nonce, id).0 == s,
        burn_tr(s, auth, nonce, id).1 == Err::<(), Error>(Error::NotAdmin),
{
}

/// Initialization is one-time: after a successful initialization, any
/// second initialization fails with `AlreadyInitialized` and alters neither
/// the stored name, nor the symbol, nor the administrator — the whole state
/// is unchanged.
pub proof fn lemma_initialize_once(
    s: StateV,
    admin1: Seq<u8>,
    name1: Seq<u8>,
    symbol1: Seq<u8>,
    admin2: Seq<u8>,
    name2: Seq<u8>,
    symbol2: Seq<u8>,
)
    requires
        initialize_tr(s, admin1, name1, symbol1).1 == Ok::<(), Error>(()),
    ensures
        initialize_tr(initialize_tr(s, admin1, name1, symbol1).0, admin2, name2, symbol2).0
            == initialize_tr(s, admin1, name1, symbol1).0,
        initialize_tr(initialize_tr(s, admin1, name1, symbol1).0, admin2, name2, symbol2).1
            == Err::<(), Error>(Error::AlreadyInitialized),
{
}

} // verus!
