//! The authorization gate's raw material: authorization values (a detached
//! ed25519 signature, or the trusted direct invoker), the canonical payload
//! that a signature must cover, and the external signature-verification
//! primitive.
//!
//! The canonical payload binds the method name, the contract identity, the
//! network identifier and the call's ordered arguments, so a signature can
//! never be replayed against another method, contract or network.

use vstd::prelude::*;
use vstd::slice::slice_to_vec;
use vstd::string::StringSliceAdditionalSpecFns;

use crate::identity::{clone_bytes, Identity};

verus! {

/// An authorization value: either the trusted direct invoker (no detached
/// signature, identity supplied by the host), or an ed25519 signature by the
/// holder of `public_key` over the call's canonical payload.
pub enum AuthSig {
    Invoker { id: Identity },
    Ed25519 { public_key: Vec<u8>, signature: Vec<u8> },
}

/// The mathematical image of an authorization value.
pub enum AuthV {
    Invoker { id: Seq<u8> },
    Ed25519 { public_key: Seq<u8>, signature: Seq<u8> },
}

impl View for AuthSig {
    type V = AuthV;

    open spec fn view(&self) -> AuthV {
        match self {
            AuthSig::Invoker { id } => AuthV::Invoker { id: id@ },
            AuthSig::Ed25519 { public_key, signature } => AuthV::Ed25519 {
                public_key: public_key@,
                signature: signature@,
            },
        }
    }
}

impl AuthV {
    /// The identity an authorization value speaks for.
    pub open spec fn identity(self) -> Seq<u8> {
        match self {
            AuthV::Invoker { id } => id,
            AuthV::Ed25519 { public_key, .. } => public_key,
        }
    }

    /// Whether the value carries a detached signature (and so consumes a
    /// nonce) rather than being the direct invoker.
    pub open spec fn is_signed(self) -> bool {
        self is Ed25519
    }
}

/// The identity an authorization value speaks for.
pub fn auth_identity(auth: &AuthSig) -> (r: Identity)
    ensures
        r@ == auth@.identity(),
{
    match auth {
        AuthSig::Invoker { id } => id.dup(),
        AuthSig::Ed25519 { public_key, .. } => Identity::from_bytes(clone_bytes(public_key)),
    }
}

/// The gated methods, as bound into the canonical payload.
#[derive(Clone, Copy, PartialEq, Eq, Structural)]
pub enum Method {
    SetAdmin,
    Approve,
    ApproveAll,
    Transfer,
    TransferFrom,
    Mint,
    Burn,
}

/// The name bound into the canonical payload for each method.
pub open spec fn method_name(m: Method) -> Seq<u8> {
    match m {
        Method::SetAdmin => "set_admin".spec_bytes(),
        Method::Approve => "appr".spec_bytes(),
        Method::ApproveAll => "appr_all".spec_bytes(),
        Method::Transfer => "xfer".spec_bytes(),
        Method::TransferFrom => "xfer_from".spec_bytes(),
        Method::Mint => "mint".spec_bytes(),
        Method::Burn => "burn".spec_bytes(),
    }
}

/// The bytes of a method's name.
pub fn method_bytes(m: Method) -> (r: Vec<u8>)
    ensures
        r@ == method_name(m),
{
    match m {
        Method::SetAdmin => slice_to_vec("set_admin".as_bytes()),
        Method::Approve => slice_to_vec("appr".as_bytes()),
        Method::ApproveAll => slice_to_vec("appr_all".as_bytes()),
        Method::Transfer => slice_to_vec("xfer".as_bytes()),
        Method::TransferFrom => slice_to_vec("xfer_from".as_bytes()),
        Method::Mint => slice_to_vec("mint".as_bytes()),
        Method::Burn => slice_to_vec("burn".as_bytes()),
    }
}

/// The bytes of a string, as used for names, symbols and URIs.
pub fn to_bytes(value: &str) -> (r: Vec<u8>)
    ensures
        r@ == value.spec_bytes(),
{
    slice_to_vec(value.as_bytes())
}

/// An ordered argument of a gated call, as bound into the canonical payload.
pub enum Arg {
    Id(Identity),
    Int(i128),
    Flag(bool),
}

/// The mathematical image of an argument.
pub enum ArgV {
    Id(Seq<u8>),
    Int(int),
    Flag(bool),
}

impl View for Arg {
    type V = ArgV;

    open spec fn view(&self) -> ArgV {
        match self {
            Arg::Id(id) => ArgV::Id(id@),
            Arg::Int(v) => ArgV::Int(*v as int),
            Arg::Flag(b) => ArgV::Flag(*b),
        }
    }
}

/// The mathematical image of an argument sequence.
pub open spec fn args_view(s: Seq<Arg>) -> Seq<ArgV> {
    s.map_values(|a: Arg| a@)
}

/// `n` little-endian base-256 digits of `v`.
pub open spec fn le_bytes(v: nat, n: nat) -> Seq<u8>
    decreases n,
{
    if n == 0 {
        Seq::empty()
    } else {
        seq![(v % 256) as u8] + le_bytes(v / 256, (n - 1) as nat)
    }
}

/// A byte string prefixed with its length (8 little-endian bytes).
pub open spec fn enc_len(b: Seq<u8>) -> Seq<u8> {
    le_bytes(b.len(), 8) + b
}

/// A signed 128-bit integer: a sign byte, then 16 little-endian magnitude
/// bytes (negative values offset by 2^127).
pub open spec fn enc_i128(v: int) -> Seq<u8> {
    if v >= 0 {
        seq![1u8] + le_bytes(v as nat, 16)
    } else {
        seq![0u8] + le_bytes((v + 0x80000000000000000000000000000000) as nat, 16)
    }
}

/// One tagged argument.
pub open spec fn enc_arg(a: ArgV) -> Seq<u8> {
    match a {
        ArgV::Id(id) => seq![1u8] + enc_len(id),
        ArgV::Int(v) => seq![2u8] + enc_i128(v),
        ArgV::Flag(b) => seq![3u8] + seq![if b { 1u8 } else { 0u8 }],
    }
}

/// The ordered arguments, encoded one after another.
pub open spec fn enc_args(s: Seq<ArgV>) -> Seq<u8>
    decreases s.len(),
{
    if s.len() == 0 {
        Seq::empty()
    } else {
        enc_args(s.drop_last()) + enc_arg(s.last())
    }
}

/// The canonical payload of a gated call: method name, contract identity,
/// network identifier (each length-prefixed), then the ordered arguments.
pub open spec fn payload_bytes(
    method: Seq<u8>,
    contract: Seq<u8>,
    network: Seq<u8>,
    args: Seq<ArgV>,
) -> Seq<u8> {
    enc_len(method) + enc_len(contract) + enc_len(network) + enc_args(args)
}

/// Append a copy of `src` to `out`.
pub fn push_all(out: &mut Vec<u8>, src: &Vec<u8>)
    ensures
        final(out)@ == old(out)@ + src@,
{
    let n = src.len();
    let mut i: usize = 0;
    while i < n
        invariant
            0 <= i <= n,
            src@.len() == n,
            out@ == old(out)@ + src@.take(i as int),
        decreases n - i,
    {
        out.push(src[i]);
        proof {
            assert(old(out)@ + src@.take(i as int) + seq![src@[i as int]] =~= old(out)@
                + src@.take(i + 1 as int));
        }
        i += 1;
    }
    proof {
        assert(old(out)@ + src@.take(n as int) =~= old(out)@ + src@);
    }
}

/// Append `n` little-endian base-256 digits of `v` to `out`.
fn push_le(out: &mut Vec<u8>, v: u128, n: usize)
    ensures
        final(out)@ == old(out)@ + le_bytes(v as nat, n as nat),
{
    let mut x: u128 = v;
    let mut i: usize = 0;
    while i < n
        invariant
            0 <= i <= n,
            old(out)@ + le_bytes(v as nat, n as nat) == out@ + le_bytes(
                x as nat,
                (n - i) as nat,
            ),
        decreases n - i,
    {
        proof {
            assert(le_bytes(x as nat, (n - i) as nat) == seq![(x as nat % 256) as u8] + le_bytes(
                x as nat / 256,
                (n - i - 1) as nat,
            ));
        }
        let ghost prev = out@;
        out.push((x % 256) as u8);
        proof {
            assert(prev + (seq![(x as nat % 256) as u8] + le_bytes(
                x as nat / 256,
                (n - i - 1) as nat,
            )) =~= out@ + le_bytes(x as nat / 256, (n - i - 1) as nat));
        }
        x = x / 256;
        i += 1;
    }
    proof {
        assert(le_bytes(x as nat, 0) == Seq::<u8>::empty());
        assert(out@ + Seq::<u8>::empty() =~= out@);
    }
}

/// Append a length-prefixed byte string to `out`.
fn push_len_prefixed(out: &mut Vec<u8>, src: &Vec<u8>)
    ensures
        final(out)@ == old(out)@ + enc_len(src@),
{
    push_le(out, src.len() as u128, 8);
    push_all(out, src);
    proof {
        assert(old(out)@ + le_bytes(src@.len(), 8) + src@ =~= old(out)@ + enc_len(src@));
    }
}

/// Append one tagged argument to `out`.
fn push_arg(out: &mut Vec<u8>, a: &Arg)
    ensures
        final(out)@ == old(out)@ + enc_arg(a@),
{
    match a {
        Arg::Id(id) => {
            out.push(1u8);
            let ghost mid = out@;
            push_len_prefixed(out, id.as_bytes());
            proof {
                assert(old(out)@ + (seq![1u8] + enc_len(id@)) =~= mid + enc_len(id@));
            }
        },
        Arg::Int(v) => {
            out.push(2u8);
            let ghost mid = out@;
            if *v >= 0 {
                out.push(1u8);
                let ghost mid2 = out@;
                push_le(out, *v as u128, 16);
                proof {
                    assert(old(out)@ + (seq![2u8] + (seq![1u8] + le_bytes(*v as nat, 16))) =~= mid2
                        + le_bytes(*v as nat, 16));
                }
            } else {
                out.push(0u8);
                let ghost mid2 = out@;
                let m: i128 = *v - i128::MIN;
                push_le(out, m as u128, 16);
                proof {
                    assert(old(out)@ + (seq![2u8] + (seq![0u8] + le_bytes(m as nat, 16))) =~= mid2
                        + le_bytes(m as nat, 16));
                }
            }
        },
        Arg::Flag(b) => {
            out.push(3u8);
            out.push(if *b { 1u8 } else { 0u8 });
            proof {
                assert(old(out)@ + (seq![3u8] + seq![if a@->Flag_0 { 1u8 } else { 0u8 }]) =~= out@);
            }
        },
    }
}

/// Build the canonical payload of a gated call.
pub fn build_payload(contract: &Vec<u8>, network: &Vec<u8>, method: Method, args: &Vec<Arg>) -> (r:
    Vec<u8>)
    ensures
        r@ == payload_bytes(method_name(method), contract@, network@, args_view(args@)),
{
    let mut out: Vec<u8> = Vec::new();
    let name = method_bytes(method);
    push_len_prefixed(&mut out, &name);
    push_len_prefixed(&mut out, contract);
    push_len_prefixed(&mut out, network);
    let ghost base = out@;
    let n = args.len();
    let mut i: usize = 0;
    while i < n
        invariant
            0 <= i <= n,
            args@.len() == n,
            base == enc_len(method_name(method)) + enc_len(contract@) + enc_len(network@),
            out@ == base + enc_args(args_view(args@.take(i as int))),
        decreases n - i,
    {
        let ghost prev = out@;
        push_arg(&mut out, &args[i]);
        proof {
            let t = args_view(args@.take(i + 1 as int));
            assert(t.drop_last() =~= args_view(args@.take(i as int)));
            assert(t.last() == args@[i as int]@);
            assert(base + enc_args(args_view(args@.take(i as int))) + enc_arg(args@[i as int]@)
                =~= base + enc_args(t));
        }
        i += 1;
    }
    proof {
        assert(args_view(args@.take(n as int)) =~= args_view(args@));
        assert(base + enc_args(args_view(args@)) =~= payload_bytes(
            method_name(method),
            contract@,
            network@,
            args_view(args@),
        ));
    }
    out
}

/// The verdict of ed25519 signature verification: a pure function of the
/// public key, the message and the signature bytes, computed by the external
/// cryptographic primitive.
pub uninterp spec fn ed25519_verifies(public_key: Seq<u8>, message: Seq<u8>, signature: Seq<u8>) -> bool;

/// Relies on ed25519_dalek's `PublicKey::verify` (with `from_bytes` parsing
/// of the key and the signature): the verdict is a deterministic function of
/// the three byte strings alone. Malformed keys or signatures never verify.
#[verifier::external_body]
pub fn ed25519_check(public_key: &Vec<u8>, message: &Vec<u8>, signature: &Vec<u8>) -> (r: bool)
    ensures
        r == ed25519_verifies(public_key@, message@, signature@),
{
    let pk = match ed25519_dalek::PublicKey::from_bytes(public_key) {
        Ok(pk) => pk,
        Err(_) => return false,
    };
    let sig = match ed25519_dalek::Signature::try_from(signature.as_slice()) {
        Ok(sig) => sig,
        Err(_) => return false,
    };
    ed25519_dalek::Verifier::verify(&pk, message.as_slice(), &sig).is_ok()
}

/// Whether an authorization value is valid for a canonical payload: the
/// direct invoker is trusted by the host; a detached signature must verify
/// under its public key.
pub open spec fn sig_valid(auth: AuthV, payload: Seq<u8>) -> bool {
    match auth {
        AuthV::Invoker { .. } => true,
        AuthV::Ed25519 { public_key, signature } => ed25519_verifies(
            public_key,
            payload,
            signature,
        ),
    }
}

/// Check an authorization value against a canonical payload.
pub fn check_sig(auth: &AuthSig, payload: &Vec<u8>) -> (r: bool)
    ensures
        r == sig_valid(auth@, payload@),
{
    match auth {
        AuthSig::Invoker { .. } => true,
        AuthSig::Ed25519 { public_key, signature } => ed25519_check(public_key, payload, signature),
    }
}

} // verus!
