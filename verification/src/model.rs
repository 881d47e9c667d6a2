//! The mathematical model of the ledger: the abstract state, its
//! well-formedness invariant, the authorization gate, and one transition
//! function per public operation. The executable engine proves that each of
//! its methods computes exactly the corresponding transition.

use vstd::prelude::*;
use vstd::set_lib::lemma_len_subset;

use crate::auth::{ed25519_verifies, method_name, payload_bytes, ArgV, AuthV, Method};
use crate::errors::Error;
use crate::event::EventV;
use crate::identity::sentinel;

verus! {

/// Who may mint. Both policies are supported; the one in force is an
/// explicit configuration choice made when the engine is created.
#[derive(Clone, Copy, PartialEq, Eq, Structural)]
pub enum MintPolicy {
    /// Only the administrator's signature may mint.
    AdminOnly,
    /// Any authorized caller may mint.
    Open,
}

/// The abstract state of the collection.
#[verifier::ext_equal]
pub struct StateV {
    /// The contract identity bound into every canonical payload.
    pub contract: Seq<u8>,
    /// The network identifier bound into every canonical payload.
    pub network: Seq<u8>,
    /// The mint authorization policy in force.
    pub policy: MintPolicy,
    /// The administrator, once initialized.
    pub admin: Option<Seq<u8>>,
    /// The collection name, set at initialization.
    pub name: Seq<u8>,
    /// The collection symbol, set at initialization.
    pub symbol: Seq<u8>,
    /// Token id to owner; the sentinel owner means the token is burned.
    pub owners: Map<int, Seq<u8>>,
    /// Token id to its single approved operator.
    pub approvals: Map<int, Seq<u8>>,
    /// Token id to its assigned metadata URI.
    pub uris: Map<int, Seq<u8>>,
    /// Identity to balance; absent identities have balance 0.
    pub balances: Map<Seq<u8>, int>,
    /// Identity to replay-prevention counter; absent identities are at 0.
    pub nonces: Map<Seq<u8>, int>,
    /// (owner, operator) to the approve-all flag; absent pairs are `false`.
    pub approve_all: Map<(Seq<u8>, Seq<u8>), bool>,
    /// One record per successful mutation, in order.
    pub events: Seq<EventV>,
}

/// The set of token ids a map assigns to owner `i`.
pub open spec fn owned_set(m: Map<int, Seq<u8>>, i: Seq<u8>) -> Set<int> {
    Set::new(|id: int| m.dom().contains(id) && m[id] == i)
}

impl StateV {
    /// The balance of an identity; 0 when never seen.
    pub open spec fn bal(self, i: Seq<u8>) -> int {
        if self.balances.contains_key(i) {
            self.balances[i]
        } else {
            0
        }
    }

    /// The nonce counter of an identity; 0 when never seen.
    pub open spec fn nonce_of(self, i: Seq<u8>) -> int {
        if self.nonces.contains_key(i) {
            self.nonces[i]
        } else {
            0
        }
    }

    /// The approved operator of a token; the sentinel when unset.
    pub open spec fn approved_of(self, id: int) -> Seq<u8> {
        if self.approvals.contains_key(id) {
            self.approvals[id]
        } else {
            sentinel()
        }
    }

    /// The approve-all flag of an (owner, operator) pair; `false` by default.
    pub open spec fn approved_all_of(self, owner: Seq<u8>, operator: Seq<u8>) -> bool {
        if self.approve_all.contains_key((owner, operator)) {
            self.approve_all[(owner, operator)]
        } else {
            false
        }
    }

    /// The set of token ids owned by `i`.
    pub open spec fn owned(self, i: Seq<u8>) -> Set<int> {
        owned_set(self.owners, i)
    }

    /// Whether a token is live: minted and not burned.
    pub open spec fn live(self, id: int) -> bool {
        self.owners.contains_key(id) && self.owners[id] != sentinel()
    }

    /// Well-formedness, which holds at every reachable state: balances count
    /// ownership exactly, and balances and nonces are non-negative and
    /// bounded by the number of successful mutations so far.
    pub open spec fn wf(self) -> bool {
        &&& self.owners.dom().finite()
        &&& forall|i: Seq<u8>|
            i != sentinel() ==> #[trigger] self.bal(i) == self.owned(i).len()
        &&& forall|i: Seq<u8>| 0 <= #[trigger] self.bal(i) <= self.events.len()
        &&& forall|i: Seq<u8>| 0 <= #[trigger] self.nonce_of(i) <= self.events.len()
    }

    /// The state with one more event recorded.
    pub open spec fn with_event(self, e: EventV) -> StateV {
        StateV { events: self.events.push(e), ..self }
    }
}

/// The empty state a freshly created engine holds.
pub open spec fn initial_state(contract: Seq<u8>, network: Seq<u8>, policy: MintPolicy) -> StateV {
    StateV {
        contract: contract,
        network: network,
        policy: policy,
        admin: None,
        name: Seq::empty(),
        symbol: Seq::empty(),
        owners: Map::empty(),
        approvals: Map::empty(),
        uris: Map::empty(),
        balances: Map::empty(),
        nonces: Map::empty(),
        approve_all: Map::empty(),
        events: Seq::empty(),
    }
}

/// The verdict of the authorization gate.
#[derive(Clone, Copy, PartialEq, Eq, Structural)]
pub enum Gate {
    /// Signature and nonce are in order.
    Pass,
    /// A direct-invoker call carried a non-zero nonce.
    BadInvokerNonce,
    /// A signed call carried a nonce other than the signer's counter.
    BadNonce,
    /// The detached signature does not verify over the canonical payload.
    BadSig,
}

/// The authorization gate: a direct invoker is trusted by the host but must
/// carry nonce 0; a signed call must carry the signer's current counter and
/// a signature that verifies over the canonical payload.
pub open spec fn gate(s: StateV, auth: AuthV, nonce: int, payload: Seq<u8>) -> Gate {
    match auth {
        AuthV::Invoker { .. } => if nonce != 0 {
            Gate::BadInvokerNonce
        } else {
            Gate::Pass
        },
        AuthV::Ed25519 { public_key, signature } => if nonce != s.nonce_of(public_key) {
            Gate::BadNonce
        } else if !ed25519_verifies(public_key, payload, signature) {
            Gate::BadSig
        } else {
            Gate::Pass
        },
    }
}

/// The error a failed gate verdict aborts with. A signature that does not
/// prove the claimed identity fails with the operation's own authorization
/// error, `auth_err`.
pub open spec fn gate_error(g: Gate, auth_err: Error) -> Error {
    match g {
        Gate::BadInvokerNonce => Error::InvalidInvokerNonce,
        Gate::BadNonce => Error::NonceMismatch,
        Gate::BadSig => auth_err,
        Gate::Pass => auth_err,
    }
}

/// Consume the signer's nonce: signed calls increment the signer's counter
/// by exactly 1; direct-invoker calls never touch any counter.
pub open spec fn consume(s: StateV, auth: AuthV) -> StateV {
    match auth {
        AuthV::Invoker { .. } => s,
        AuthV::Ed25519 { public_key, .. } => StateV {
            nonces: s.nonces.insert(public_key, s.nonce_of(public_key) + 1),
            ..s
        },
    }
}

/// The canonical payload of one gated call of this contract.
pub open spec fn call_payload(s: StateV, method: Method, args: Seq<ArgV>) -> Seq<u8> {
    payload_bytes(method_name(method), s.contract, s.network, args)
}

/// The ownership check shared by approve, transfer, transfer-from and burn:
/// the token must be live, and `who` must be its current owner.
pub open spec fn owner_check(s: StateV, who: Seq<u8>, id: int) -> Result<(), Error> {
    if !s.live(id) {
        Err(Error::UnknownToken)
    } else if s.owners[id] != who {
        Err(Error::NotOwner)
    } else {
        Ok(())
    }
}

/// One-time initialization: record the administrator, name and symbol.
pub open spec fn initialize_tr(s: StateV, admin: Seq<u8>, name: Seq<u8>, symbol: Seq<u8>) -> (
    StateV,
    Result<(), Error>,
) {
    if s.admin is Some {
        (s, Err(Error::AlreadyInitialized))
    } else {
        (StateV { admin: Some(admin), name: name, symbol: symbol, ..s }, Ok(()))
    }
}

/// Rotate the administrator: only the current administrator, signed and
/// nonce-gated, may do it.
pub open spec fn set_admin_tr(s: StateV, auth: AuthV, nonce: int, new_admin: Seq<u8>) -> (
    StateV,
    Result<(), Error>,
) {
    let signer = auth.identity();
    let payload = call_payload(
        s,
        Method::SetAdmin,
        seq![ArgV::Id(signer), ArgV::Int(nonce), ArgV::Id(new_admin)],
    );
    let g = gate(s, auth, nonce, payload);
    if g != Gate::Pass {
        (s, Err(gate_error(g, Error::NotAdmin)))
    } else if s.admin is None {
        (s, Err(Error::Uninitialized))
    } else if s.admin != Some(signer) {
        (s, Err(Error::NotAdmin))
    } else {
        let s1 = StateV { admin: Some(new_admin), ..consume(s, auth) };
        (
            s1.with_event(EventV::SetAdmin { old_admin: signer, new_admin: new_admin }),
            Ok(()),
        )
    }
}

/// Approve a single operator for one token: only the token's owner may.
pub open spec fn appr_tr(s: StateV, auth: AuthV, nonce: int, operator: Seq<u8>, id: int) -> (
    StateV,
    Result<(), Error>,
) {
    let signer = auth.identity();
    let payload = call_payload(
        s,
        Method::Approve,
        seq![ArgV::Id(signer), ArgV::Int(nonce), ArgV::Id(operator), ArgV::Int(id)],
    );
    let g = gate(s, auth, nonce, payload);
    if g != Gate::Pass {
        (s, Err(gate_error(g, Error::NotOwner)))
    } else if owner_check(s, signer, id) is Err {
        (s, owner_check(s, signer, id))
    } else {
        let s1 = StateV { approvals: s.approvals.insert(id, operator), ..consume(s, auth) };
        (s1.with_event(EventV::Approve { operator: operator, id: id }), Ok(()))
    }
}

/// Grant or revoke an operator over all of the signer's present and future
/// holdings. No predicate beyond a valid, nonce-gated authorization.
pub open spec fn appr_all_tr(
    s: StateV,
    auth: AuthV,
    nonce: int,
    operator: Seq<u8>,
    approved: bool,
) -> (StateV, Result<(), Error>) {
    let signer = auth.identity();
    let payload = call_payload(
        s,
        Method::ApproveAll,
        seq![ArgV::Id(signer), ArgV::Int(nonce), ArgV::Id(operator), ArgV::Flag(approved)],
    );
    let g = gate(s, auth, nonce, payload);
    if g != Gate::Pass {
        (s, Err(gate_error(g, Error::NotOwner)))
    } else {
        let s1 = StateV {
            approve_all: s.approve_all.insert((signer, operator), approved),
            ..consume(s, auth)
        };
        (s1.with_event(EventV::ApproveAll { operator: operator, owner: signer }), Ok(()))
    }
}

/// The mutation every successful transfer performs, after the authorization gate and the
/// predicate checks: the owner changes, the balances move by one, and the
/// token's single-operator approval resets to the sentinel.
pub open spec fn transfer_commit(s: StateV, from: Seq<u8>, to: Seq<u8>, id: int) -> StateV {
    let b1 = s.balances.insert(from, s.bal(from) - 1);
    let s1 = StateV { balances: b1, ..s };
    StateV {
        owners: s.owners.insert(id, to),
        approvals: s.approvals.insert(id, sentinel()),
        balances: b1.insert(to, s1.bal(to) + 1),
        ..s
    }
}

/// Transfer a token: only its current owner, signed and nonce-gated, may.
pub open spec fn xfer_tr(s: StateV, auth: AuthV, nonce: int, to: Seq<u8>, id: int) -> (
    StateV,
    Result<(), Error>,
) {
    let signer = auth.identity();
    let payload = call_payload(
        s,
        Method::Transfer,
        seq![ArgV::Id(signer), ArgV::Int(nonce), ArgV::Id(to), ArgV::Int(id)],
    );
    let g = gate(s, auth, nonce, payload);
    if g != Gate::Pass {
        (s, Err(gate_error(g, Error::NotOwner)))
    } else if owner_check(s, signer, id) is Err {
        (s, owner_check(s, signer, id))
    } else {
        let s1 = transfer_commit(consume(s, auth), signer, to, id);
        (s1.with_event(EventV::Transfer { from: signer, to: to, id: id }), Ok(()))
    }
}

/// Transfer a token on the owner's behalf: the signer must be the token's
/// approved operator or hold the owner's approve-all grant, and `from` must
/// be the token's current owner.
pub open spec fn xfer_from_tr(
    s: StateV,
    auth: AuthV,
    nonce: int,
    from: Seq<u8>,
    to: Seq<u8>,
    id: int,
) -> (StateV, Result<(), Error>) {
    let spender = auth.identity();
    let payload = call_payload(
        s,
        Method::TransferFrom,
        seq![
            ArgV::Id(spender),
            ArgV::Int(nonce),
            ArgV::Id(from),
            ArgV::Id(to),
            ArgV::Int(id),
        ],
    );
    let g = gate(s, auth, nonce, payload);
    if g != Gate::Pass {
        (s, Err(gate_error(g, Error::NotApproved)))
    } else if owner_check(s, from, id) is Err {
        (s, owner_check(s, from, id))
    } else if spender != s.approved_of(id) && !s.approved_all_of(from, spender) {
        (s, Err(Error::NotApproved))
    } else {
        let s1 = transfer_commit(consume(s, auth), from, to, id);
        (s1.with_event(EventV::Transfer { from: from, to: to, id: id }), Ok(()))
    }
}

/// The mutation a successful mint performs: the token comes into existence
/// owned by `to`, whose balance grows by one, and a URI is assigned.
pub open spec fn mint_commit(s: StateV, to: Seq<u8>, id: int, uri: Seq<u8>) -> StateV {
    StateV {
        owners: s.owners.insert(id, to),
        balances: s.balances.insert(to, s.bal(to) + 1),
        uris: s.uris.insert(id, uri),
        ..s
    }
}

/// Mint a token: gated by the configured policy; the token must never have
/// been minted before (a burned token can never be minted again).
pub open spec fn mint_tr(s: StateV, auth: AuthV, nonce: int, to: Seq<u8>, id: int, uri: Seq<u8>) -> (
    StateV,
    Result<(), Error>,
) {
    let signer = auth.identity();
    let auth_err = if s.policy == MintPolicy::AdminOnly {
        Error::NotAdmin
    } else {
        Error::NotOwner
    };
    let payload = call_payload(
        s,
        Method::Mint,
        seq![ArgV::Id(signer), ArgV::Int(nonce), ArgV::Id(to), ArgV::Int(id)],
    );
    let g = gate(s, auth, nonce, payload);
    if g != Gate::Pass {
        (s, Err(gate_error(g, auth_err)))
    } else if s.policy == MintPolicy::AdminOnly && s.admin is None {
        (s, Err(Error::Uninitialized))
    } else if s.policy == MintPolicy::AdminOnly && s.admin != Some(signer) {
        (s, Err(Error::NotAdmin))
    } else if s.owners.contains_key(id) {
        (s, Err(Error::AlreadyMinted))
    } else {
        let s1 = mint_commit(consume(s, auth), to, id, uri);
        (s1.with_event(EventV::Mint { to: to, id: id }), Ok(()))
    }
}

/// The mutation a successful burn performs: the owner resets to the
/// sentinel, the owner's balance shrinks by one, and the token's approval
/// resets to the sentinel.
pub open spec fn burn_commit(s: StateV, from: Seq<u8>, id: int) -> StateV {
    StateV {
        owners: s.owners.insert(id, sentinel()),
        approvals: s.approvals.insert(id, sentinel()),
        balances: s.balances.insert(from, s.bal(from) - 1),
        ..s
    }
}

/// Burn a token: only the administrator, signed and nonce-gated, may; the
/// token must be live.
pub open spec fn burn_tr(s: StateV, auth: AuthV, nonce: int, id: int) -> (
    StateV,
    Result<(), Error>,
) {
    let signer = auth.identity();
    let payload = call_payload(
        s,
        Method::Burn,
        seq![ArgV::Id(signer), ArgV::Int(nonce), ArgV::Int(id)],
    );
    let g = gate(s, auth, nonce, payload);
    if g != Gate::Pass {
        (s, Err(gate_error(g, Error::NotAdmin)))
    } else if s.admin is None {
        (s, Err(Error::Uninitialized))
    } else if s.admin != Some(signer) {
        (s, Err(Error::NotAdmin))
    } else if !s.live(id) {
        (s, Err(Error::UnknownToken))
    } else {
        let from = s.owners[id];
        let s1 = burn_commit(consume(s, auth), from, id);
        (s1.with_event(EventV::Burn { from: from, id: id }), Ok(()))
    }
}


/// Inserting `(id, v)` into an ownership map changes each identity's owned
/// set in exactly one way: `v` gains `id`, every other identity loses it.
pub proof fn lemma_owned_insert(m: Map<int, Seq<u8>>, id: int, v: Seq<u8>, i: Seq<u8>)
    ensures
        owned_set(m.insert(id, v), i) == if i == v {
            owned_set(m, i).insert(id)
        } else {
            owned_set(m, i).remove(id)
        },
{
    if i == v {
        assert(owned_set(m.insert(id, v), i) =~= owned_set(m, i).insert(id));
    } else {
        assert(owned_set(m.insert(id, v), i) =~= owned_set(m, i).remove(id));
    }
}

/// An owned set is a finite subset of the ownership map's domain.
pub proof fn lemma_owned_finite(m: Map<int, Seq<u8>>, i: Seq<u8>)
    requires
        m.dom().finite(),
    ensures
        owned_set(m, i).finite(),
        owned_set(m, i).len() <= m.dom().len(),
{
    assert(owned_set(m, i).subset_of(m.dom()));
    lemma_len_subset(owned_set(m, i), m.dom());
}

/// A state whose ownership, balance and nonce maps agree with a well-formed
/// one, and whose event log is no shorter, is well-formed itself.
pub proof fn lemma_wf_same_ledger(s: StateV, t: StateV)
    requires
        s.wf(),
        t.owners == s.owners,
        t.balances == s.balances,
        t.nonces == s.nonces,
        s.events.len() <= t.events.len(),
    ensures
        t.wf(),
{
    assert forall|i: Seq<u8>| i != sentinel() implies #[trigger] t.bal(i) == t.owned(i).len() by {
        assert(t.bal(i) == s.bal(i));
        assert(t.owned(i) == s.owned(i));
        assert(s.bal(i) == s.owned(i).len());
    }
    assert forall|i: Seq<u8>| 0 <= #[trigger] t.bal(i) <= t.events.len() by {
        assert(t.bal(i) == s.bal(i));
    }
    assert forall|i: Seq<u8>| 0 <= #[trigger] t.nonce_of(i) <= t.events.len() by {
        assert(t.nonce_of(i) == s.nonce_of(i));
    }
}

/// A gated operation that consumes the nonce, records one event and leaves
/// ownership and balances alone preserves well-formedness.
pub proof fn lemma_wf_gated_no_ledger_change(s: StateV, auth: AuthV, t: StateV)
    requires
        s.wf(),
        t.owners == s.owners,
        t.balances == s.balances,
        t.nonces == consume(s, auth).nonces,
        t.events.len() == s.events.len() + 1,
    ensures
        t.wf(),
{
    assert forall|i: Seq<u8>| i != sentinel() implies #[trigger] t.bal(i) == t.owned(i).len() by {
        assert(t.bal(i) == s.bal(i));
        assert(t.owned(i) == s.owned(i));
        assert(s.bal(i) == s.owned(i).len());
    }
    assert forall|i: Seq<u8>| 0 <= #[trigger] t.bal(i) <= t.events.len() by {
        assert(t.bal(i) == s.bal(i));
    }
    assert forall|i: Seq<u8>| 0 <= #[trigger] t.nonce_of(i) <= t.events.len() by {
        match auth {
            AuthV::Invoker { .. } => {
                assert(t.nonce_of(i) == s.nonce_of(i));
            },
            AuthV::Ed25519 { public_key, .. } => {
                if i == public_key {
                    assert(t.nonce_of(i) == s.nonce_of(i) + 1);
                } else {
                    assert(t.nonce_of(i) == s.nonce_of(i));
                }
            },
        }
    }
}

/// A successful transfer's committed state is well-formed: the moved token
/// leaves the old owner's set and balance and joins the new owner's.
pub proof fn lemma_wf_transfer(s: StateV, auth: AuthV, from: Seq<u8>, to: Seq<u8>, id: int, e: EventV)
    requires
        s.wf(),
        s.owners.contains_key(id),
        s.owners[id] == from,
        from != sentinel(),
    ensures
        transfer_commit(consume(s, auth), from, to, id).with_event(e).wf(),
{
    let t = transfer_commit(consume(s, auth), from, to, id).with_event(e);
    assert(t.owners.dom() =~= s.owners.dom().insert(id));
    assert forall|i: Seq<u8>| i != sentinel() implies #[trigger] t.bal(i) == t.owned(i).len() by {
        lemma_owned_finite(s.owners, i);
        lemma_owned_insert(s.owners, id, to, i);
        assert(s.bal(i) == s.owned(i).len());
        if i == to {
            if from == to {
                assert(s.owned(i).contains(id));
                assert(s.owned(i).insert(id) =~= s.owned(i));
                assert(t.bal(i) == s.bal(i));
            } else {
                assert(!s.owned(i).contains(id));
                assert(t.bal(i) == s.bal(i) + 1);
            }
        } else if i == from {
            assert(s.owned(i).contains(id));
            assert(t.bal(i) == s.bal(i) - 1);
        } else {
            assert(!s.owned(i).contains(id));
            assert(s.owned(i).remove(id) =~= s.owned(i));
            assert(t.bal(i) == s.bal(i));
        }
    }
    assert forall|i: Seq<u8>| 0 <= #[trigger] t.bal(i) <= t.events.len() by {
        lemma_owned_finite(s.owners, from);
        assert(s.owned(from).contains(id));
        assert(s.bal(from) == s.owned(from).len());
        assert(s.bal(from) >= 1);
        if i == to {
            if from == to {
                assert(t.bal(i) == s.bal(from));
            } else {
                assert(t.bal(i) == s.bal(to) + 1);
                assert(0 <= s.bal(to) <= s.events.len());
            }
        } else if i == from {
            assert(t.bal(i) == s.bal(from) - 1);
            assert(0 <= s.bal(from) <= s.events.len());
        } else {
            assert(t.bal(i) == s.bal(i));
        }
    }
    assert forall|i: Seq<u8>| 0 <= #[trigger] t.nonce_of(i) <= t.events.len() by {
        match auth {
            AuthV::Invoker { .. } => {
                assert(t.nonce_of(i) == s.nonce_of(i));
            },
            AuthV::Ed25519 { public_key, .. } => {
                if i == public_key {
                    assert(t.nonce_of(i) == s.nonce_of(i) + 1);
                } else {
                    assert(t.nonce_of(i) == s.nonce_of(i));
                }
            },
        }
    }
}

/// A successful mint's committed state is well-formed: a fresh token joins
/// the recipient's set and balance.
pub proof fn lemma_wf_mint(s: StateV, auth: AuthV, to: Seq<u8>, id: int, uri: Seq<u8>, e: EventV)
    requires
        s.wf(),
        !s.owners.contains_key(id),
    ensures
        mint_commit(consume(s, auth), to, id, uri).with_event(e).wf(),
{
    let t = mint_commit(consume(s, auth), to, id, uri).with_event(e);
    assert(t.owners.dom() =~= s.owners.dom().insert(id));
    assert forall|i: Seq<u8>| i != sentinel() implies #[trigger] t.bal(i) == t.owned(i).len() by {
        lemma_owned_finite(s.owners, i);
        lemma_owned_insert(s.owners, id, to, i);
        assert(s.bal(i) == s.owned(i).len());
        assert(!s.owned(i).contains(id));
        if i == to {
            assert(t.bal(i) == s.bal(i) + 1);
        } else {
            assert(s.owned(i).remove(id) =~= s.owned(i));
            assert(t.bal(i) == s.bal(i));
        }
    }
    assert forall|i: Seq<u8>| 0 <= #[trigger] t.bal(i) <= t.events.len() by {
        assert(0 <= s.bal(i) <= s.events.len());
    }
    assert forall|i: Seq<u8>| 0 <= #[trigger] t.nonce_of(i) <= t.events.len() by {
        match auth {
            AuthV::Invoker { .. } => {
                assert(t.nonce_of(i) == s.nonce_of(i));
            },
            AuthV::Ed25519 { public_key, .. } => {
                if i == public_key {
                    assert(t.nonce_of(i) == s.nonce_of(i) + 1);
                } else {
                    assert(t.nonce_of(i) == s.nonce_of(i));
                }
            },
        }
    }
}

/// A successful burn's committed state is well-formed: the token leaves its
/// owner's set and balance and is owned by the sentinel from then on.
pub proof fn lemma_wf_burn(s: StateV, auth: AuthV, from: Seq<u8>, id: int, e: EventV)
    requires
        s.wf(),
        s.owners.contains_key(id),
        s.owners[id] == from,
        from != sentinel(),
    ensures
        burn_commit(consume(s, auth), from, id).with_event(e).wf(),
{
    let t = burn_commit(consume(s, auth), from, id).with_event(e);
    assert(t.owners.dom() =~= s.owners.dom().insert(id));
    assert forall|i: Seq<u8>| i != sentinel() implies #[trigger] t.bal(i) == t.owned(i).len() by {
        lemma_owned_finite(s.owners, i);
        lemma_owned_insert(s.owners, id, sentinel(), i);
        assert(s.bal(i) == s.owned(i).len());
        if i == from {
            assert(s.owned(i).contains(id));
            assert(t.bal(i) == s.bal(i) - 1);
        } else {
            assert(!s.owned(i).contains(id));
            assert(s.owned(i).remove(id) =~= s.owned(i));
            assert(t.bal(i) == s.bal(i));
        }
    }
    assert forall|i: Seq<u8>| 0 <= #[trigger] t.bal(i) <= t.events.len() by {
        lemma_owned_finite(s.owners, from);
        assert(s.owned(from).contains(id));
        assert(s.bal(from) == s.owned(from).len());
        assert(s.bal(from) >= 1);
        if i == from {
            assert(t.bal(i) == s.bal(from) - 1);
            assert(0 <= s.bal(from) <= s.events.len());
        } else {
            assert(t.bal(i) == s.bal(i));
        }
    }
    assert forall|i: Seq<u8>| 0 <= #[trigger] t.nonce_of(i) <= t.events.len() by {
        match auth {
            AuthV::Invoker { .. } => {
                assert(t.nonce_of(i) == s.nonce_of(i));
            },
            AuthV::Ed25519 { public_key, .. } => {
                if i == public_key {
                    assert(t.nonce_of(i) == s.nonce_of(i) + 1);
                } else {
                    assert(t.nonce_of(i) == s.nonce_of(i));
                }
            },
        }
    }
}

/// The initial state is well-formed.
pub proof fn lemma_wf_initial(contract: Seq<u8>, network: Seq<u8>, policy: MintPolicy)
    ensures
        initial_state(contract, network, policy).wf(),
{
    let s = initial_state(contract, network, policy);
    assert forall|i: Seq<u8>| i != sentinel() implies #[trigger] s.bal(i) == s.owned(i).len() by {
        assert(s.owned(i) =~= Set::<int>::empty());
    }
}

} // verus!
