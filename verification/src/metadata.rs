//! Collection metadata: name, symbol and per-token URIs, and the metadata
//! store's URI assignment, which draws on a coarse clock as a weak entropy
//! source (flagged: not cryptographically secure, never relied on for
//! anything security-sensitive).

use vstd::prelude::*;
use vstd::string::StringSliceAdditionalSpecFns;

use crate::auth::to_bytes;
use crate::contract::NonFungibleToken;
use crate::errors::Error;
use crate::identity::clone_bytes;
use crate::model::StateV;

verus! {

/// The URIs a newly minted token may be assigned.
#[derive(Clone, Copy, PartialEq, Eq, Structural)]
pub enum NftURIs {
    Pug,
    ShibaInu,
    StBernard,
}

/// The bytes of each assignable URI.
pub open spec fn uri_value(u: NftURIs) -> Seq<u8> {
    match u {
        NftURIs::Pug => "pug.json".spec_bytes(),
        NftURIs::ShibaInu => "shiba_inu.json".spec_bytes(),
        NftURIs::StBernard => "st_bernard.json".spec_bytes(),
    }
}

/// Whether a byte string is one of the collection's assignable URIs.
pub open spec fn is_collection_uri(u: Seq<u8>) -> bool {
    ||| u == uri_value(NftURIs::Pug)
    ||| u == uri_value(NftURIs::ShibaInu)
    ||| u == uri_value(NftURIs::StBernard)
}

impl NftURIs {
    /// The URI's bytes.
    pub fn value(&self) -> (r: Vec<u8>)
        ensures
            r@ == uri_value(*self),
    {
        match self {
            NftURIs::Pug => to_bytes("pug.json"),
            NftURIs::ShibaInu => to_bytes("shiba_inu.json"),
            NftURIs::StBernard => to_bytes("st_bernard.json"),
        }
    }
}

/// Relies on std::time::SystemTime::now for a coarse clock reading, used
/// only as a weak entropy source; nothing is assumed of the value.
#[verifier::external_body]
fn clock_seed() -> u64 {
    match std::time::SystemTime::now().duration_since(std::time::SystemTime::UNIX_EPOCH) {
        Ok(d) => d.as_secs(),
        Err(_) => 0,
    }
}

/// Assign a URI pseudo-randomly: one of the three assignable URIs, picked
/// by the clock.
pub fn get_rand_uri() -> (r: Vec<u8>)
    ensures
        is_collection_uri(r@),
{
    let seed = clock_seed();
    match seed % 3 {
        0 => NftURIs::Pug.value(),
        1 => NftURIs::ShibaInu.value(),
        _ => NftURIs::StBernard.value(),
    }
}

/// The collection name; fails while uninitialized.
pub fn read_name(s: &NonFungibleToken) -> (r: Result<Vec<u8>, Error>)
    ensures
        match r {
            Ok(v) => s@.admin is Some && v@ == s@.name,
            Err(e) => s@.admin is None && e == Error::Uninitialized,
        },
{
    match &s.admin {
        Some(_) => Ok(clone_bytes(&s.name)),
        None => Err(Error::Uninitialized),
    }
}

/// Record the collection name, unconditionally.
pub fn write_name(s: &mut NonFungibleToken, name: Vec<u8>)
    ensures
        final(s).inv() == old(s).inv(),
        final(s)@ == (StateV { name: name@, ..old(s)@ }),
{
    s.name = name;
    proof {
        assert(s@ =~= (StateV { name: s.name@, ..old(s)@ }));
    }
}

/// The collection symbol; fails while uninitialized.
pub fn read_symbol(s: &NonFungibleToken) -> (r: Result<Vec<u8>, Error>)
    ensures
        match r {
            Ok(v) => s@.admin is Some && v@ == s@.symbol,
            Err(e) => s@.admin is None && e == Error::Uninitialized,
        },
{
    match &s.admin {
        Some(_) => Ok(clone_bytes(&s.symbol)),
        None => Err(Error::Uninitialized),
    }
}

/// Record the collection symbol, unconditionally.
pub fn write_symbol(s: &mut NonFungibleToken, symbol: Vec<u8>)
    ensures
        final(s).inv() == old(s).inv(),
        final(s)@ == (StateV { symbol: symbol@, ..old(s)@ }),
{
    s.symbol = symbol;
    proof {
        assert(s@ =~= (StateV { symbol: s.symbol@, ..old(s)@ }));
    }
}

/// The URI of a token; fails for a token that was never minted.
pub fn read_token_uri(s: &NonFungibleToken, id: i128) -> (r: Result<Vec<u8>, Error>)
    requires
        s.inv(),
    ensures
        match r {
            Ok(v) => s@.uris.contains_key(id as int) && v@ == s@.uris[id as int],
            Err(e) => !s@.uris.contains_key(id as int) && e == Error::UnknownToken,
        },
{
    match s.uris.get(id) {
        Some(v) => Ok(clone_bytes(v)),
        None => Err(Error::UnknownToken),
    }
}

/// Record the URI of a token, unconditionally.
pub fn write_token_uri(s: &mut NonFungibleToken, id: i128, uri: Vec<u8>)
    requires
        old(s).inv(),
    ensures
        final(s).inv(),
        final(s)@ == (StateV { uris: old(s)@.uris.insert(id as int, uri@), ..old(s)@ }),
{
    s.uris.set(id, uri);
    proof {
        assert(s@ =~= (StateV { uris: old(s)@.uris.insert(id as int, uri@), ..old(s)@ }));
    }
}

} // verus!
