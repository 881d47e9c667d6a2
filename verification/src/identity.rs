//! Identities: opaque principal references derived from a public key.
//! One reserved sentinel value (all zero bytes) means "no owner" /
//! "no operator".

use vstd::prelude::*;

verus! {

/// Number of bytes in an identity (an ed25519 public key).
pub const IDENTITY_LEN: usize = 32;

/// An opaque principal reference. It is compared only for equality; the
/// engine never looks inside the bytes.
#[derive(Debug)]
pub struct Identity {
    bytes: Vec<u8>,
}

impl View for Identity {
    type V = Seq<u8>;

    closed spec fn view(&self) -> Seq<u8> {
        self.bytes@
    }
}

/// The byte sequence of the sentinel identity: `IDENTITY_LEN` zero bytes.
pub open spec fn sentinel() -> Seq<u8> {
    Seq::new(IDENTITY_LEN as nat, |i: int| 0u8)
}

impl Identity {
    /// Wrap raw bytes (for example an ed25519 public key) as an identity.
    pub fn from_bytes(bytes: Vec<u8>) -> (r: Identity)
        ensures
            r@ == bytes@,
    {
        Identity { bytes }
    }

    /// The raw bytes of the identity.
    pub fn as_bytes(&self) -> (r: &Vec<u8>)
        ensures
            r@ == self@,
    {
        &self.bytes
    }

    /// An independent copy of the identity.
    pub fn dup(&self) -> (r: Identity)
        ensures
            r@ == self@,
    {
        Identity { bytes: clone_bytes(&self.bytes) }
    }

    /// Whether this identity is the sentinel ("no owner" / "no operator").
    pub fn is_sentinel(&self) -> (r: bool)
        ensures
            r == (self@ == sentinel()),
    {
        bytes_is_sentinel(&self.bytes)
    }
}

/// Whether a byte vector holds the sentinel identity's bytes.
pub fn bytes_is_sentinel(v: &Vec<u8>) -> (r: bool)
    ensures
        r == (v@ == sentinel()),
{
    if v.len() != IDENTITY_LEN {
        assert(v@ != sentinel()) by {
            assert(v@.len() != sentinel().len());
        }
        return false;
    }
    let mut i: usize = 0;
    while i < IDENTITY_LEN
        invariant
            0 <= i <= IDENTITY_LEN,
            v@.len() == IDENTITY_LEN,
            forall|j: int| 0 <= j < i ==> v@[j] == 0u8,
        decreases IDENTITY_LEN - i,
    {
        if v[i] != 0u8 {
            assert(v@ != sentinel()) by {
                assert(sentinel()[i as int] == 0u8);
            }
            return false;
        }
        i += 1;
    }
    proof {
        assert(v@ =~= sentinel());
    }
    true
}

/// The sentinel identity's bytes: `IDENTITY_LEN` zero bytes.
pub fn sentinel_bytes() -> (r: Vec<u8>)
    ensures
        r@ == sentinel(),
{
    let mut out: Vec<u8> = Vec::new();
    let mut i: usize = 0;
    while i < IDENTITY_LEN
        invariant
            0 <= i <= IDENTITY_LEN,
            out@.len() == i,
            forall|j: int| 0 <= j < i ==> out@[j] == 0u8,
        decreases IDENTITY_LEN - i,
    {
        out.push(0u8);
        i += 1;
    }
    proof {
        assert(out@ =~= sentinel());
    }
    out
}

impl PartialEq for Identity {
    fn eq(&self, other: &Identity) -> (r: bool) {
        bytes_eq(&self.bytes, &other.bytes)
    }
}

impl Eq for Identity {

}

impl vstd::std_specs::cmp::PartialEqSpecImpl for Identity {
    open spec fn obeys_eq_spec() -> bool {
        true
    }

    open spec fn eq_spec(&self, other: &Identity) -> bool {
        self@ == other@
    }
}

/// Equality of two byte vectors, element by element.
pub fn bytes_eq(a: &Vec<u8>, b: &Vec<u8>) -> (r: bool)
    ensures
        r == (a@ == b@),
{
    if a.len() != b.len() {
        assert(a@ != b@) by {
            assert(a@.len() != b@.len());
        }
        return false;
    }
    let n = a.len();
    let mut i: usize = 0;
    while i < n
        invariant
            0 <= i <= n,
            a@.len() == n,
            b@.len() == n,
            forall|j: int| 0 <= j < i ==> a@[j] == b@[j],
        decreases n - i,
    {
        if a[i] != b[i] {
            return false;
        }
        i += 1;
    }
    proof {
        assert(a@ =~= b@);
    }
    true
}

/// An independent copy of a byte vector.
pub fn clone_bytes(v: &Vec<u8>) -> (r: Vec<u8>)
    ensures
        r@ == v@,
{
    let mut out: Vec<u8> = Vec::new();
    let n = v.len();
    let mut i: usize = 0;
    while i < n
        invariant
            0 <= i <= n,
            v@.len() == n,
            out@ == v@.take(i as int),
        decreases n - i,
    {
        out.push(v[i]);
        proof {
            assert(out@ =~= v@.take(i + 1 as int));
        }
        i += 1;
    }
    proof {
        assert(v@.take(n as int) =~= v@);
    }
    out
}

} // verus!
