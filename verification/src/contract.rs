//! The transition engine: the collection's state and the public operations
//! over it. Every mutating operation is an atomic composition of the
//! authorization gate, the operation's predicate checks, the ledger and
//! registry mutation, and one event record; any failed check aborts the call
//! before any mutation.

use vstd::prelude::*;

use crate::auth::{
    auth_identity, build_payload, check_sig, Arg, ArgV, AuthSig, Method,
};
use crate::errors::Error;
use crate::balance::{write_balance, WriteType};
use crate::event::{events_view, lemma_events_view_push, Event, EventV};
use crate::metadata::{get_rand_uri, is_collection_uri, write_token_uri};
use crate::identity::{bytes_eq, clone_bytes, sentinel_bytes, Identity};
use crate::model::{
    appr_all_tr, appr_tr, burn_tr, consume, gate, initial_state, initialize_tr, lemma_owned_finite,
    lemma_wf_burn, lemma_wf_gated_no_ledger_change, lemma_wf_initial, lemma_wf_mint,
    lemma_wf_same_ledger, lemma_wf_transfer, mint_tr, set_admin_tr, xfer_from_tr,
    xfer_tr, Gate, MintPolicy, StateV,
};
use crate::owner::{check_owner, write_owner, zero_address};
use crate::store::{IdentMap, PairMap, TokenMap};

verus! {

/// One non-fungible token collection: configuration, registries, ledger and
/// event log, exclusively owned by the caller for the duration of a call.
pub struct NonFungibleToken {
    /// The contract identity bound into every canonical payload.
    pub contract_id: Vec<u8>,
    /// The network identifier bound into every canonical payload.
    pub network_id: Vec<u8>,
    /// The mint authorization policy in force.
    pub policy: MintPolicy,
    /// The administrator, once initialized.
    pub admin: Option<Identity>,
    /// The collection name, set at initialization.
    pub name: Vec<u8>,
    /// The collection symbol, set at initialization.
    pub symbol: Vec<u8>,
    /// Token id to owner.
    pub owners: TokenMap,
    /// Token id to its single approved operator.
    pub approvals: TokenMap,
    /// Token id to its assigned metadata URI.
    pub uris: TokenMap,
    /// Identity to balance.
    pub balances: IdentMap,
    /// Identity to replay-prevention counter.
    pub nonces: IdentMap,
    /// (owner, operator) to the approve-all flag.
    pub approve_all: PairMap,
    /// One record per successful mutation, in order.
    pub events: Vec<Event>,
}

impl View for NonFungibleToken {
    type V = StateV;

    open spec fn view(&self) -> StateV {
        StateV {
            contract: self.contract_id@,
            network: self.network_id@,
            policy: self.policy,
            admin: match self.admin {
                Some(a) => Some(a@),
                None => None,
            },
            name: self.name@,
            symbol: self.symbol@,
            owners: self.owners@,
            approvals: self.approvals@,
            uris: self.uris@,
            balances: self.balances@,
            nonces: self.nonces@,
            approve_all: self.approve_all@,
            events: events_view(self.events@),
        }
    }
}

impl NonFungibleToken {
    /// The representation invariant: every registry keeps its keys unique.
    pub open spec fn inv(&self) -> bool {
        &&& self.owners.inv()
        &&& self.approvals.inv()
        &&& self.uris.inv()
        &&& self.balances.inv()
        &&& self.nonces.inv()
        &&& self.approve_all.inv()
    }

    /// Well-formedness: the representation invariant together with the
    /// abstract state's invariant.
    pub open spec fn wf(&self) -> bool {
        self.inv() && self@.wf()
    }

    /// Create an empty, uninitialized collection under the given contract
    /// identity, network identifier and mint policy.
    pub fn new(contract_id: Vec<u8>, network_id: Vec<u8>, policy: MintPolicy) -> (r:
        NonFungibleToken)
        ensures
            r.wf(),
            r@ == initial_state(contract_id@, network_id@, policy),
    {
        let r = NonFungibleToken {
            contract_id,
            network_id,
            policy,
            admin: None,
            name: Vec::new(),
            symbol: Vec::new(),
            owners: TokenMap::new(),
            approvals: TokenMap::new(),
            uris: TokenMap::new(),
            balances: IdentMap::new(),
            nonces: IdentMap::new(),
            approve_all: PairMap::new(),
            events: Vec::new(),
        };
        proof {
            assert(events_view(r.events@) =~= Seq::<crate::event::EventV>::empty());
            assert(r@ =~= initial_state(r.contract_id@, r.network_id@, policy));
            lemma_wf_initial(r.contract_id@, r.network_id@, policy);
        }
        r
    }

    /// The replay-prevention counter of an identity; 0 when never consumed.
    pub fn nonce(&self, id: &Identity) -> (r: i128)
        requires
            self.inv(),
        ensures
            r as int == self@.nonce_of(id@),
    {
        self.nonces.get_or_zero(id.as_bytes())
    }

    /// The administrator; fails while uninitialized.
    pub fn admin(&self) -> (r: Result<Identity, Error>)
        ensures
            match r {
                Ok(a) => self@.admin == Some(a@),
                Err(e) => self@.admin is None && e == Error::Uninitialized,
            },
    {
        match &self.admin {
            Some(a) => Ok(a.dup()),
            None => Err(Error::Uninitialized),
        }
    }

    /// The amount of tokens an identity holds.
    pub fn balance(&self, owner: &Identity) -> (r: i128)
        requires
            self.inv(),
        ensures
            r as int == self@.bal(owner@),
    {
        self.balances.get_or_zero(owner.as_bytes())
    }

    /// The owner of a token; fails for a token that was never minted. A
    /// burned token's owner is the sentinel identity.
    pub fn owner(&self, id: i128) -> (r: Result<Identity, Error>)
        requires
            self.inv(),
        ensures
            match r {
                Ok(o) => self@.owners.contains_key(id as int) && o@ == self@.owners[id as int],
                Err(e) => !self@.owners.contains_key(id as int) && e == Error::UnknownToken,
            },
    {
        match self.owners.get(id) {
            Some(o) => Ok(Identity::from_bytes(clone_bytes(o))),
            None => Err(Error::UnknownToken),
        }
    }

    /// The identity approved to manage a token; the sentinel when none is.
    pub fn get_appr(&self, id: i128) -> (r: Identity)
        requires
            self.inv(),
        ensures
            r@ == self@.approved_of(id as int),
    {
        match self.approvals.get(id) {
            Some(o) => Identity::from_bytes(clone_bytes(o)),
            None => Identity::from_bytes(sentinel_bytes()),
        }
    }

    /// Whether `operator` holds `owner`'s approve-all grant.
    pub fn is_appr(&self, owner: &Identity, operator: &Identity) -> (r: bool)
        requires
            self.inv(),
        ensures
            r == self@.approved_all_of(owner@, operator@),
    {
        self.approve_all.get_or_false(owner.as_bytes(), operator.as_bytes())
    }

    /// The collection name; fails while uninitialized.
    pub fn name(&self) -> (r: Result<Vec<u8>, Error>)
        ensures
            match r {
                Ok(v) => self@.admin is Some && v@ == self@.name,
                Err(e) => self@.admin is None && e == Error::Uninitialized,
            },
    {
        crate::metadata::read_name(self)
    }

    /// The collection symbol; fails while uninitialized.
    pub fn symbol(&self) -> (r: Result<Vec<u8>, Error>)
        ensures
            match r {
                Ok(v) => self@.admin is Some && v@ == self@.symbol,
                Err(e) => self@.admin is None && e == Error::Uninitialized,
            },
    {
        crate::metadata::read_symbol(self)
    }

    /// The URI of a token; fails for a token that was never minted.
    pub fn token_uri(&self, id: i128) -> (r: Result<Vec<u8>, Error>)
        requires
            self.inv(),
        ensures
            match r {
                Ok(v) => self@.uris.contains_key(id as int) && v@ == self@.uris[id as int],
                Err(e) => !self@.uris.contains_key(id as int) && e == Error::UnknownToken,
            },
    {
        crate::metadata::read_token_uri(self, id)
    }

    /// How many successful mutations have been recorded.
    pub fn event_count(&self) -> (n: usize)
        ensures
            n == self@.events.len(),
    {
        self.events.len()
    }

    /// The recorded event at an index, oldest first.
    pub fn event_at(&self, i: usize) -> (r: &Event)
        requires
            i < self@.events.len(),
        ensures
            r@ == self@.events[i as int],
    {
        &self.events[i]
    }

    /// Check an authorization value and its nonce at the authorization gate.
    fn gate_check(&self, auth: &AuthSig, nonce: i128, payload: &Vec<u8>) -> (g: Gate)
        requires
            self.inv(),
        ensures
            g == gate(self@, auth@, nonce as int, payload@),
    {
        match auth {
            AuthSig::Invoker { .. } => if nonce != 0 {
                Gate::BadInvokerNonce
            } else {
                Gate::Pass
            },
            AuthSig::Ed25519 { public_key, signature } => {
                let cur = self.nonces.get_or_zero(public_key);
                if nonce != cur {
                    Gate::BadNonce
                } else if !check_sig(auth, payload) {
                    Gate::BadSig
                } else {
                    Gate::Pass
                }
            },
        }
    }

    /// Consume the signer's nonce: the one mutation the authorization gate itself makes,
    /// committed only together with the rest of a successful transition.
    fn consume_nonce(&mut self, auth: &AuthSig)
        requires
            old(self).wf(),
        ensures
            final(self).inv(),
            final(self)@ == consume(old(self)@, auth@),
    {
        match auth {
            AuthSig::Invoker { .. } => {},
            AuthSig::Ed25519 { public_key, .. } => {
                let ecount = self.events.len();
                let cur = self.nonces.get_or_zero(public_key);
                proof {
                    assert(self@.nonce_of(public_key@) <= self@.events.len());
                    assert(ecount as int <= usize::MAX as int);
                    assert(usize::MAX as int <= u64::MAX as int);
                    assert(cur < i128::MAX);
                }
                let key = clone_bytes(public_key);
                self.nonces.set(key, cur + 1);
                proof {
                    assert(self@ =~= consume(old(self)@, auth@));
                }
            },
        }
    }
}


impl NonFungibleToken {
    /// The canonical payload of a `set_admin` call.
    pub fn set_admin_payload(&self, signer: &Identity, nonce: i128, new_admin: &Identity) -> (r:
        Vec<u8>)
        ensures
            r@ == crate::model::call_payload(
                self@,
                Method::SetAdmin,
                seq![ArgV::Id(signer@), ArgV::Int(nonce as int), ArgV::Id(new_admin@)],
            ),
    {
        let mut args: Vec<Arg> = Vec::new();
        args.push(Arg::Id(signer.dup()));
        args.push(Arg::Int(nonce));
        args.push(Arg::Id(new_admin.dup()));
        proof {
            assert(crate::auth::args_view(args@) =~= seq![
                ArgV::Id(signer@),
                ArgV::Int(nonce as int),
                ArgV::Id(new_admin@),
            ]);
        }
        build_payload(&self.contract_id, &self.network_id, Method::SetAdmin, &args)
    }

    /// The canonical payload of an `appr` call.
    pub fn appr_payload(&self, owner: &Identity, nonce: i128, operator: &Identity, id: i128) -> (r:
        Vec<u8>)
        ensures
            r@ == crate::model::call_payload(
                self@,
                Method::Approve,
                seq![
                    ArgV::Id(owner@),
                    ArgV::Int(nonce as int),
                    ArgV::Id(operator@),
                    ArgV::Int(id as int),
                ],
            ),
    {
        let mut args: Vec<Arg> = Vec::new();
        args.push(Arg::Id(owner.dup()));
        args.push(Arg::Int(nonce));
        args.push(Arg::Id(operator.dup()));
        args.push(Arg::Int(id));
        proof {
            assert(crate::auth::args_view(args@) =~= seq![
                ArgV::Id(owner@),
                ArgV::Int(nonce as int),
                ArgV::Id(operator@),
                ArgV::Int(id as int),
            ]);
        }
        build_payload(&self.contract_id, &self.network_id, Method::Approve, &args)
    }

    /// The canonical payload of an `appr_all` call.
    pub fn appr_all_payload(&self, owner: &Identity, nonce: i128, operator: &Identity, approved: bool) -> (r: Vec<u8>)
        ensures
            r@ == crate::model::call_payload(
                self@,
                Method::ApproveAll,
                seq![
                    ArgV::Id(owner@),
                    ArgV::Int(nonce as int),
                    ArgV::Id(operator@),
                    ArgV::Flag(approved),
                ],
            ),
    {
        let mut args: Vec<Arg> = Vec::new();
        args.push(Arg::Id(owner.dup()));
        args.push(Arg::Int(nonce));
        args.push(Arg::Id(operator.dup()));
        args.push(Arg::Flag(approved));
        proof {
            assert(crate::auth::args_view(args@) =~= seq![
                ArgV::Id(owner@),
                ArgV::Int(nonce as int),
                ArgV::Id(operator@),
                ArgV::Flag(approved),
            ]);
        }
        build_payload(&self.contract_id, &self.network_id, Method::ApproveAll, &args)
    }

    /// The canonical payload of a `xfer` call.
    pub fn xfer_payload(&self, from: &Identity, nonce: i128, to: &Identity, id: i128) -> (r: Vec<
        u8>)
        ensures
            r@ == crate::model::call_payload(
                self@,
                Method::Transfer,
                seq![
                    ArgV::Id(from@),
                    ArgV::Int(nonce as int),
                    ArgV::Id(to@),
                    ArgV::Int(id as int),
                ],
            ),
    {
        let mut args: Vec<Arg> = Vec::new();
        args.push(Arg::Id(from.dup()));
        args.push(Arg::Int(nonce));
        args.push(Arg::Id(to.dup()));
        args.push(Arg::Int(id));
        proof {
            assert(crate::auth::args_view(args@) =~= seq![
                ArgV::Id(from@),
                ArgV::Int(nonce as int),
                ArgV::Id(to@),
                ArgV::Int(id as int),
            ]);
        }
        build_payload(&self.contract_id, &self.network_id, Method::Transfer, &args)
    }

    /// The canonical payload of a `xfer_from` call.
    pub fn xfer_from_payload(
        &self,
        spender: &Identity,
        nonce: i128,
        from: &Identity,
        to: &Identity,
        id: i128,
    ) -> (r: Vec<u8>)
        ensures
            r@ == crate::model::call_payload(
                self@,
                Method::TransferFrom,
                seq![
                    ArgV::Id(spender@),
                    ArgV::Int(nonce as int),
                    ArgV::Id(from@),
                    ArgV::Id(to@),
                    ArgV::Int(id as int),
                ],
            ),
    {
        let mut args: Vec<Arg> = Vec::new();
        args.push(Arg::Id(spender.dup()));
        args.push(Arg::Int(nonce));
        args.push(Arg::Id(from.dup()));
        args.push(Arg::Id(to.dup()));
        args.push(Arg::Int(id));
        proof {
            assert(crate::auth::args_view(args@) =~= seq![
                ArgV::Id(spender@),
                ArgV::Int(nonce as int),
                ArgV::Id(from@),
                ArgV::Id(to@),
                ArgV::Int(id as int),
            ]);
        }
        build_payload(&self.contract_id, &self.network_id, Method::TransferFrom, &args)
    }

    /// The canonical payload of a `mint` call.
    pub fn mint_payload(&self, signer: &Identity, nonce: i128, to: &Identity, id: i128) -> (r: Vec<
        u8>)
        ensures
            r@ == crate::model::call_payload(
                self@,
                Method::Mint,
                seq![
                    ArgV::Id(signer@),
                    ArgV::Int(nonce as int),
                    ArgV::Id(to@),
                    ArgV::Int(id as int),
                ],
            ),
    {
        let mut args: Vec<Arg> = Vec::new();
        args.push(Arg::Id(signer.dup()));
        args.push(Arg::Int(nonce));
        args.push(Arg::Id(to.dup()));
        args.push(Arg::Int(id));
        proof {
            assert(crate::auth::args_view(args@) =~= seq![
                ArgV::Id(signer@),
                ArgV::Int(nonce as int),
                ArgV::Id(to@),
                ArgV::Int(id as int),
            ]);
        }
        build_payload(&self.contract_id, &self.network_id, Method::Mint, &args)
    }

    /// The canonical payload of a `burn` call.
    pub fn burn_payload(&self, signer: &Identity, nonce: i128, id: i128) -> (r: Vec<u8>)
        ensures
            r@ == crate::model::call_payload(
                self@,
                Method::Burn,
                seq![ArgV::Id(signer@), ArgV::Int(nonce as int), ArgV::Int(id as int)],
            ),
    {
        let mut args: Vec<Arg> = Vec::new();
        args.push(Arg::Id(signer.dup()));
        args.push(Arg::Int(nonce));
        args.push(Arg::Int(id));
        proof {
            assert(crate::auth::args_view(args@) =~= seq![
                ArgV::Id(signer@),
                ArgV::Int(nonce as int),
                ArgV::Int(id as int),
            ]);
        }
        build_payload(&self.contract_id, &self.network_id, Method::Burn, &args)
    }
}

impl NonFungibleToken {
    /// One-time initialization: record the administrator, name and symbol;
    /// fails with `AlreadyInitialized` once an administrator exists.
    pub fn initialize(&mut self, admin: &Identity, name: Vec<u8>, symbol: Vec<u8>) -> (r: Result<
        (),
        Error,
    >)
        requires
            old(self).wf(),
        ensures
            final(self).wf(),
            final(self)@ == initialize_tr(old(self)@, admin@, name@, symbol@).0,
            r == initialize_tr(old(self)@, admin@, name@, symbol@).1,
    {
        if self.admin.is_some() {
            return Err(Error::AlreadyInitialized);
        }
        self.admin = Some(admin.dup());
        crate::metadata::write_name(self, name);
        crate::metadata::write_symbol(self, symbol);
        proof {
            assert(self@ =~= initialize_tr(old(self)@, admin@, name@, symbol@).0);
            lemma_wf_same_ledger(old(self)@, self@);
        }
        Ok(())
    }

    /// Rotate the administrator: only the current administrator, signed and
    /// nonce-gated, may do it.
    pub fn set_admin(&mut self, auth: &AuthSig, nonce: i128, new_admin: &Identity) -> (r: Result<
        (),
        Error,
    >)
        requires
            old(self).wf(),
        ensures
            final(self).wf(),
            final(self)@ == set_admin_tr(old(self)@, auth@, nonce as int, new_admin@).0,
            r == set_admin_tr(old(self)@, auth@, nonce as int, new_admin@).1,
    {
        let signer = auth_identity(auth);
        let payload = self.set_admin_payload(&signer, nonce, new_admin);
        match self.gate_check(auth, nonce, &payload) {
            Gate::BadInvokerNonce => return Err(Error::InvalidInvokerNonce),
            Gate::BadNonce => return Err(Error::NonceMismatch),
            Gate::BadSig => return Err(Error::NotAdmin),
            Gate::Pass => {},
        }
        let is_admin = match &self.admin {
            None => return Err(Error::Uninitialized),
            Some(a) => bytes_eq(a.as_bytes(), signer.as_bytes()),
        };
        if !is_admin {
            return Err(Error::NotAdmin);
        }
        self.consume_nonce(auth);
        self.admin = Some(new_admin.dup());
        let ghost ev0 = self.events@;
        self.events.push(Event::SetAdmin { old_admin: signer, new_admin: new_admin.dup() });
        proof {
            lemma_events_view_push(ev0, self.events@.last());
            assert(self@ =~= set_admin_tr(old(self)@, auth@, nonce as int, new_admin@).0);
            lemma_wf_gated_no_ledger_change(old(self)@, auth@, self@);
        }
        Ok(())
    }

    /// Allow `operator` to manage token `id`: only the token's current
    /// owner may grant it.
    pub fn appr(&mut self, auth: &AuthSig, nonce: i128, operator: &Identity, id: i128) -> (r:
        Result<(), Error>)
        requires
            old(self).wf(),
        ensures
            final(self).wf(),
            final(self)@ == appr_tr(old(self)@, auth@, nonce as int, operator@, id as int).0,
            r == appr_tr(old(self)@, auth@, nonce as int, operator@, id as int).1,
    {
        let signer = auth_identity(auth);
        let payload = self.appr_payload(&signer, nonce, operator, id);
        match self.gate_check(auth, nonce, &payload) {
            Gate::BadInvokerNonce => return Err(Error::InvalidInvokerNonce),
            Gate::BadNonce => return Err(Error::NonceMismatch),
            Gate::BadSig => return Err(Error::NotOwner),
            Gate::Pass => {},
        }
        if let Err(e) = crate::owner::check_owner(self, &signer, id) {
            return Err(e);
        }
        self.consume_nonce(auth);
        self.approvals.set(id, clone_bytes(operator.as_bytes()));
        let ghost ev0 = self.events@;
        self.events.push(Event::Approve { operator: operator.dup(), id });
        proof {
            lemma_events_view_push(ev0, self.events@.last());
            assert(self@ =~= appr_tr(old(self)@, auth@, nonce as int, operator@, id as int).0);
            lemma_wf_gated_no_ledger_change(old(self)@, auth@, self@);
        }
        Ok(())
    }

    /// Grant or revoke `operator` over all of the signer's present and
    /// future holdings.
    pub fn appr_all(&mut self, auth: &AuthSig, nonce: i128, operator: &Identity, approved: bool) -> (r: Result<(), Error>)
        requires
            old(self).wf(),
        ensures
            final(self).wf(),
            final(self)@ == appr_all_tr(old(self)@, auth@, nonce as int, operator@, approved).0,
            r == appr_all_tr(old(self)@, auth@, nonce as int, operator@, approved).1,
    {
        let signer = auth_identity(auth);
        let payload = self.appr_all_payload(&signer, nonce, operator, approved);
        match self.gate_check(auth, nonce, &payload) {
            Gate::BadInvokerNonce => return Err(Error::InvalidInvokerNonce),
            Gate::BadNonce => return Err(Error::NonceMismatch),
            Gate::BadSig => return Err(Error::NotOwner),
            Gate::Pass => {},
        }
        self.consume_nonce(auth);
        self.approve_all.set(
            clone_bytes(signer.as_bytes()),
            clone_bytes(operator.as_bytes()),
            approved,
        );
        let ghost ev0 = self.events@;
        self.events.push(Event::ApproveAll { operator: operator.dup(), owner: signer });
        proof {
            lemma_events_view_push(ev0, self.events@.last());
            assert(self@ =~= appr_all_tr(old(self)@, auth@, nonce as int, operator@, approved).0);
            lemma_wf_gated_no_ledger_change(old(self)@, auth@, self@);
        }
        Ok(())
    }
}


/// What a mint call did, for one possible assigned URI `u`: the URI is one
/// of the collection's, and state and result are exactly the mint
/// transition's under it.
pub open spec fn mint_result(
    s0: StateV,
    s1: StateV,
    r: Result<(), Error>,
    auth: crate::auth::AuthV,
    nonce: int,
    to: Seq<u8>,
    id: int,
    u: Seq<u8>,
) -> bool {
    &&& is_collection_uri(u)
    &&& s1 == mint_tr(s0, auth, nonce, to, id, u).0
    &&& r == mint_tr(s0, auth, nonce, to, id, u).1
}

impl NonFungibleToken {
    /// Transfer token `id` from the signer to `to`: only the token's
    /// current owner may; the token's approval resets to the sentinel.
    pub fn xfer(&mut self, auth: &AuthSig, nonce: i128, to: &Identity, id: i128) -> (r: Result<
        (),
        Error,
    >)
        requires
            old(self).wf(),
        ensures
            final(self).wf(),
            final(self)@ == xfer_tr(old(self)@, auth@, nonce as int, to@, id as int).0,
            r == xfer_tr(old(self)@, auth@, nonce as int, to@, id as int).1,
    {
        let signer = auth_identity(auth);
        let payload = self.xfer_payload(&signer, nonce, to, id);
        match self.gate_check(auth, nonce, &payload) {
            Gate::BadInvokerNonce => return Err(Error::InvalidInvokerNonce),
            Gate::BadNonce => return Err(Error::NonceMismatch),
            Gate::BadSig => return Err(Error::NotOwner),
            Gate::Pass => {},
        }
        if let Err(e) = check_owner(self, &signer, id) {
            return Err(e);
        }
        let ecount = self.events.len();
        proof {
            lemma_owned_finite(self@.owners, signer@);
            assert(self@.owned(signer@).contains(id as int));
            assert(self@.bal(signer@) >= 1);
            assert(self@.bal(signer@) <= ecount as int);
            assert(self@.bal(to@) <= ecount as int);
            assert(ecount as int <= usize::MAX as int);
            assert(usize::MAX as int <= u64::MAX as int);
        }
        self.consume_nonce(auth);
        write_owner(self, id, to);
        match write_balance(self, &signer, WriteType::Remove) {
            Ok(()) => {},
            Err(e) => {
                proof {
                    assert(false);
                }
                return Err(e);
            },
        }
        proof {
            assert(self@.bal(to@) < i128::MAX);
        }
        match write_balance(self, to, WriteType::Add) {
            Ok(()) => {},
            Err(e) => {
                proof {
                    assert(false);
                }
                return Err(e);
            },
        }
        self.approvals.set(id, sentinel_bytes());
        let ghost ev0 = self.events@;
        self.events.push(Event::Transfer { from: signer, to: to.dup(), id });
        proof {
            lemma_events_view_push(ev0, self.events@.last());
            assert(self@ =~= xfer_tr(old(self)@, auth@, nonce as int, to@, id as int).0);
            lemma_wf_transfer(
                old(self)@,
                auth@,
                auth@.identity(),
                to@,
                id as int,
                EventV::Transfer { from: auth@.identity(), to: to@, id: id as int },
            );
        }
        Ok(())
    }

    /// Transfer token `id` from `from` to `to` on the owner's behalf: the
    /// signer must be the token's approved operator or hold the owner's
    /// approve-all grant, and `from` must be the token's current owner.
    pub fn xfer_from(
        &mut self,
        auth: &AuthSig,
        nonce: i128,
        from: &Identity,
        to: &Identity,
        id: i128,
    ) -> (r: Result<(), Error>)
        requires
            old(self).wf(),
        ensures
            final(self).wf(),
            final(self)@ == xfer_from_tr(old(self)@, auth@, nonce as int, from@, to@, id as int).0,
            r == xfer_from_tr(old(self)@, auth@, nonce as int, from@, to@, id as int).1,
    {
        let spender = auth_identity(auth);
        let payload = self.xfer_from_payload(&spender, nonce, from, to, id);
        match self.gate_check(auth, nonce, &payload) {
            Gate::BadInvokerNonce => return Err(Error::InvalidInvokerNonce),
            Gate::BadNonce => return Err(Error::NonceMismatch),
            Gate::BadSig => return Err(Error::NotApproved),
            Gate::Pass => {},
        }
        if let Err(e) = check_owner(self, from, id) {
            return Err(e);
        }
        let approved = self.get_appr(id);
        if !(bytes_eq(approved.as_bytes(), spender.as_bytes()) || self.is_appr(from, &spender)) {
            return Err(Error::NotApproved);
        }
        let ecount = self.events.len();
        proof {
            lemma_owned_finite(self@.owners, from@);
            assert(self@.owned(from@).contains(id as int));
            assert(self@.bal(from@) >= 1);
            assert(self@.bal(from@) <= ecount as int);
            assert(self@.bal(to@) <= ecount as int);
            assert(ecount as int <= usize::MAX as int);
            assert(usize::MAX as int <= u64::MAX as int);
        }
        self.consume_nonce(auth);
        write_owner(self, id, to);
        match write_balance(self, from, WriteType::Remove) {
            Ok(()) => {},
            Err(e) => {
                proof {
                    assert(false);
                }
                return Err(e);
            },
        }
        proof {
            assert(self@.bal(to@) < i128::MAX);
        }
        match write_balance(self, to, WriteType::Add) {
            Ok(()) => {},
            Err(e) => {
                proof {
                    assert(false);
                }
                return Err(e);
            },
        }
        self.approvals.set(id, sentinel_bytes());
        let ghost ev0 = self.events@;
        self.events.push(Event::Transfer { from: from.dup(), to: to.dup(), id });
        proof {
            lemma_events_view_push(ev0, self.events@.last());
            assert(self@ =~= xfer_from_tr(
                old(self)@,
                auth@,
                nonce as int,
                from@,
                to@,
                id as int,
            ).0);
            lemma_wf_transfer(
                old(self)@,
                auth@,
                from@,
                to@,
                id as int,
                EventV::Transfer { from: from@, to: to@, id: id as int },
            );
        }
        Ok(())
    }

    /// Mint token `id` to `to`, gated by the configured policy; the token
    /// must never have been minted before. The metadata store assigns one
    /// of the collection's URIs pseudo-randomly.
    pub fn mint(&mut self, auth: &AuthSig, nonce: i128, to: &Identity, id: i128) -> (r: Result<
        (),
        Error,
    >)
        requires
            old(self).wf(),
        ensures
            final(self).wf(),
            exists|u: Seq<u8>|
                mint_result(old(self)@, final(self)@, r, auth@, nonce as int, to@, id as int, u),
    {
        let signer = auth_identity(auth);
        let payload = self.mint_payload(&signer, nonce, to, id);
        let uri = get_rand_uri();
        let ghost u = uri@;
        match self.gate_check(auth, nonce, &payload) {
            Gate::BadInvokerNonce => {
                proof {
                    assert(mint_result(
                        self@, self@, Err(Error::InvalidInvokerNonce),
                        auth@, nonce as int, to@, id as int, u,
                    ));
                }
                return Err(Error::InvalidInvokerNonce);
            },
            Gate::BadNonce => {
                proof {
                    assert(mint_result(
                        self@, self@, Err(Error::NonceMismatch),
                        auth@, nonce as int, to@, id as int, u,
                    ));
                }
                return Err(Error::NonceMismatch);
            },
            Gate::BadSig => {
                let e = match self.policy {
                    MintPolicy::AdminOnly => Error::NotAdmin,
                    MintPolicy::Open => Error::NotOwner,
                };
                proof {
                    assert(mint_result(self@, self@, Err(e), auth@, nonce as int, to@, id as int, u));
                }
                return Err(e);
            },
            Gate::Pass => {},
        }
        let admin_gated = match self.policy {
            MintPolicy::AdminOnly => true,
            MintPolicy::Open => false,
        };
        if admin_gated {
            let is_admin = match &self.admin {
                None => {
                    proof {
                        assert(mint_result(
                            self@, self@, Err(Error::Uninitialized),
                            auth@, nonce as int, to@, id as int, u,
                        ));
                    }
                    return Err(Error::Uninitialized);
                },
                Some(a) => bytes_eq(a.as_bytes(), signer.as_bytes()),
            };
            if !is_admin {
                proof {
                    assert(mint_result(
                        self@, self@, Err(Error::NotAdmin),
                        auth@, nonce as int, to@, id as int, u,
                    ));
                }
                return Err(Error::NotAdmin);
            }
        }
        match self.owners.get(id) {
            Some(_) => {
                proof {
                    assert(mint_result(
                        self@, self@, Err(Error::AlreadyMinted),
                        auth@, nonce as int, to@, id as int, u,
                    ));
                }
                return Err(Error::AlreadyMinted);
            },
            None => {},
        }
        let ecount = self.events.len();
        proof {
            assert(self@.bal(to@) <= ecount as int);
            assert(ecount as int <= usize::MAX as int);
            assert(usize::MAX as int <= u64::MAX as int);
        }
        self.consume_nonce(auth);
        write_owner(self, id, to);
        match write_balance(self, to, WriteType::Add) {
            Ok(()) => {},
            Err(e) => {
                proof {
                    assert(false);
                }
                return Err(e);
            },
        }
        write_token_uri(self, id, uri);
        let ghost ev0 = self.events@;
        self.events.push(Event::Mint { to: to.dup(), id });
        proof {
            lemma_events_view_push(ev0, self.events@.last());
            assert(self@ =~= mint_tr(old(self)@, auth@, nonce as int, to@, id as int, u).0);
            lemma_wf_mint(
                old(self)@,
                auth@,
                to@,
                id as int,
                u,
                EventV::Mint { to: to@, id: id as int },
            );
            assert(mint_result(old(self)@, self@, Ok(()), auth@, nonce as int, to@, id as int, u));
        }
        Ok(())
    }

    /// Burn token `id`: only the administrator may; the token must be live.
    /// The owner resets to the sentinel, the owner's balance shrinks by one,
    /// and the token's approval resets to the sentinel.
    pub fn burn(&mut self, auth: &AuthSig, nonce: i128, id: i128) -> (r: Result<(), Error>)
        requires
            old(self).wf(),
        ensures
            final(self).wf(),
            final(self)@ == burn_tr(old(self)@, auth@, nonce as int, id as int).0,
            r == burn_tr(old(self)@, auth@, nonce as int, id as int).1,
    {
        let signer = auth_identity(auth);
        let payload = self.burn_payload(&signer, nonce, id);
        match self.gate_check(auth, nonce, &payload) {
            Gate::BadInvokerNonce => return Err(Error::InvalidInvokerNonce),
            Gate::BadNonce => return Err(Error::NonceMismatch),
            Gate::BadSig => return Err(Error::NotAdmin),
            Gate::Pass => {},
        }
        let is_admin = match &self.admin {
            None => return Err(Error::Uninitialized),
            Some(a) => bytes_eq(a.as_bytes(), signer.as_bytes()),
        };
        if !is_admin {
            return Err(Error::NotAdmin);
        }
        let from = match self.owners.get(id) {
            None => return Err(Error::UnknownToken),
            Some(o) => {
                if crate::identity::bytes_is_sentinel(o) {
                    return Err(Error::UnknownToken);
                }
                Identity::from_bytes(clone_bytes(o))
            },
        };
        let ecount = self.events.len();
        proof {
            lemma_owned_finite(self@.owners, from@);
            assert(self@.owned(from@).contains(id as int));
            assert(self@.bal(from@) >= 1);
        }
        self.consume_nonce(auth);
        let z = zero_address();
        write_owner(self, id, &z);
        match write_balance(self, &from, WriteType::Remove) {
            Ok(()) => {},
            Err(e) => {
                proof {
                    assert(false);
                }
                return Err(e);
            },
        }
        self.approvals.set(id, sentinel_bytes());
        let ghost fromv = from@;
        let ghost ev0 = self.events@;
        self.events.push(Event::Burn { from, id });
        proof {
            lemma_events_view_push(ev0, self.events@.last());
            assert(self@ =~= burn_tr(old(self)@, auth@, nonce as int, id as int).0);
            lemma_wf_burn(
                old(self)@,
                auth@,
                fromv,
                id as int,
                EventV::Burn { from: fromv, id: id as int },
            );
        }
        Ok(())
    }
}

} // verus!
