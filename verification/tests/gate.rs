use ed25519_dalek::{Keypair, Signer};
use rand::thread_rng;

use nft_engine::auth::AuthSig;
use nft_engine::balance::{read_balance, write_balance, WriteType};
use nft_engine::contract::NonFungibleToken;
use nft_engine::event::Event;
use nft_engine::errors::Error;
use nft_engine::identity::Identity;
use nft_engine::model::MintPolicy;
use nft_engine::auth::to_bytes;
use nft_engine::metadata::{
    get_rand_uri, read_name, read_symbol, read_token_uri, write_name, write_symbol,
    write_token_uri, NftURIs,
};
use nft_engine::owner::{check_owner, read_owner, write_owner, zero_address};

fn generate_keypair() -> Keypair {
    Keypair::generate(&mut thread_rng())
}

fn to_identity(kp: &Keypair) -> Identity {
    Identity::from_bytes(kp.public.to_bytes().to_vec())
}

fn sign(kp: &Keypair, payload: &[u8]) -> AuthSig {
    AuthSig::Ed25519 {
        public_key: kp.public.to_bytes().to_vec(),
        signature: kp.sign(payload).to_bytes().to_vec(),
    }
}

fn new_token_with(policy: MintPolicy) -> NonFungibleToken {
    NonFungibleToken::new(b"collection-under-test".to_vec(), b"test-network".to_vec(), policy)
}

fn new_token() -> NonFungibleToken {
    new_token_with(MintPolicy::AdminOnly)
}

fn initialize(t: &mut NonFungibleToken, admin: &Identity) {
    t.initialize(admin, b"Dogs".to_vec(), b"DOG".to_vec()).unwrap();
}

fn mint(t: &mut NonFungibleToken, admin: &Keypair, to: &Identity, id: i128) {
    let admin_id = to_identity(admin);
    let nonce = t.nonce(&admin_id);
    let payload = t.mint_payload(&admin_id, nonce, to, id);
    let auth = sign(admin, &payload);
    t.mint(&auth, nonce, to, id).unwrap();
}

#[test]
fn test_replay_rejected() {
    let mut token = new_token();

    let admin = generate_keypair();
    let admin_id = to_identity(&admin);
    let user1 = generate_keypair();
    let user1_id = to_identity(&user1);
    let user2 = generate_keypair();
    let user2_id = to_identity(&user2);

    initialize(&mut token, &admin_id);
    mint(&mut token, &admin, &user1_id, 1);

    let nonce = token.nonce(&user1_id);
    let payload = token.xfer_payload(&user1_id, nonce, &user2_id, 1);
    let auth = sign(&user1, &payload);
    token.xfer(&auth, nonce, &user2_id, 1).unwrap();
    assert!(token.owner(1).unwrap() == user2_id);
    let events_after_success = token.event_count();

    // Replaying the identical signed request fails and changes nothing.
    assert_eq!(token.xfer(&auth, nonce, &user2_id, 1), Err(Error::NonceMismatch));
    assert!(token.owner(1).unwrap() == user2_id);
    assert_eq!(token.balance(&user1_id), 0);
    assert_eq!(token.balance(&user2_id), 1);
    assert_eq!(token.nonce(&user1_id), 1);
    assert_eq!(token.event_count(), events_after_success);
}

#[test]
fn test_burn_non_admin() {
    let mut token = new_token();

    let admin = generate_keypair();
    let admin_id = to_identity(&admin);
    let user = generate_keypair();
    let user_id = to_identity(&user);

    initialize(&mut token, &admin_id);
    mint(&mut token, &admin, &user_id, 1);
    let events_before = token.event_count();

    let nonce = token.nonce(&user_id);
    let payload = token.burn_payload(&user_id, nonce, 1);
    let auth = sign(&user, &payload);
    assert_eq!(token.burn(&auth, nonce, 1), Err(Error::NotAdmin));

    // State unchanged.
    assert!(token.owner(1).unwrap() == user_id);
    assert_eq!(token.balance(&user_id), 1);
    assert_eq!(token.nonce(&user_id), 0);
    assert_eq!(token.event_count(), events_before);
}

#[test]
fn test_end_to_end() {
    let mut token = new_token();

    let admin_a = generate_keypair();
    let admin_a_id = to_identity(&admin_a);
    let user_b = generate_keypair();
    let user_b_id = to_identity(&user_b);
    let user_c = generate_keypair();
    let user_c_id = to_identity(&user_c);
    let user_d = generate_keypair();
    let user_d_id = to_identity(&user_d);

    token.initialize(&admin_a_id, b"Dogs".to_vec(), b"DOG".to_vec()).unwrap();

    let payload = token.mint_payload(&admin_a_id, 0, &user_b_id, 1);
    token.mint(&sign(&admin_a, &payload), 0, &user_b_id, 1).unwrap();
    assert!(token.owner(1).unwrap() == user_b_id);
    assert_eq!(token.balance(&user_b_id), 1);
    assert_eq!(token.nonce(&admin_a_id), 1);

    let payload = token.appr_payload(&user_b_id, 0, &user_c_id, 1);
    token.appr(&sign(&user_b, &payload), 0, &user_c_id, 1).unwrap();
    assert!(token.get_appr(1) == user_c_id);

    let payload = token.xfer_from_payload(&user_c_id, 0, &user_b_id, &user_d_id, 1);
    token.xfer_from(&sign(&user_c, &payload), 0, &user_b_id, &user_d_id, 1).unwrap();
    assert!(token.owner(1).unwrap() == user_d_id);
    assert_eq!(token.balance(&user_b_id), 0);
    assert_eq!(token.balance(&user_d_id), 1);
    assert!(token.get_appr(1) == zero_address());
}

#[test]
fn test_invoker_nonce() {
    let mut token = new_token();

    let admin = generate_keypair();
    let admin_id = to_identity(&admin);
    let user = generate_keypair();
    let user_id = to_identity(&user);
    let operator = generate_keypair();
    let operator_id = to_identity(&operator);

    initialize(&mut token, &admin_id);

    // A direct-invoker call must carry nonce 0 and consumes no counter.
    let auth = AuthSig::Invoker { id: user_id.dup() };
    token.appr_all(&auth, 0, &operator_id, true).unwrap();
    assert!(token.is_appr(&user_id, &operator_id));
    assert_eq!(token.nonce(&user_id), 0);

    let auth = AuthSig::Invoker { id: user_id.dup() };
    assert_eq!(
        token.appr_all(&auth, 1, &operator_id, false),
        Err(Error::InvalidInvokerNonce)
    );
    assert!(token.is_appr(&user_id, &operator_id));
}

#[test]
fn test_bad_signature_rejected() {
    let mut token = new_token();

    let admin = generate_keypair();
    let admin_id = to_identity(&admin);
    let user1 = generate_keypair();
    let user1_id = to_identity(&user1);
    let user2 = generate_keypair();
    let user2_id = to_identity(&user2);

    initialize(&mut token, &admin_id);
    mint(&mut token, &admin, &user1_id, 1);

    // A signature over the wrong payload (another token id) does not pass.
    let nonce = token.nonce(&user1_id);
    let wrong_payload = token.xfer_payload(&user1_id, nonce, &user2_id, 2);
    let auth = sign(&user1, &wrong_payload);
    assert_eq!(token.xfer(&auth, nonce, &user2_id, 1), Err(Error::NotOwner));
    assert!(token.owner(1).unwrap() == user1_id);

    // A corrupted signature does not pass either.
    let payload = token.xfer_payload(&user1_id, nonce, &user2_id, 1);
    let mut sig_bytes = user1.sign(&payload).to_bytes().to_vec();
    sig_bytes[0] ^= 0x01;
    let auth = AuthSig::Ed25519 {
        public_key: user1.public.to_bytes().to_vec(),
        signature: sig_bytes,
    };
    assert_eq!(token.xfer(&auth, nonce, &user2_id, 1), Err(Error::NotOwner));
    assert!(token.owner(1).unwrap() == user1_id);
    assert_eq!(token.nonce(&user1_id), 0);

    // The same request with the honest signature goes through.
    let auth = sign(&user1, &payload);
    token.xfer(&auth, nonce, &user2_id, 1).unwrap();
    assert!(token.owner(1).unwrap() == user2_id);
}

#[test]
fn test_mint_already_minted() {
    let mut token = new_token();

    let admin = generate_keypair();
    let admin_id = to_identity(&admin);
    let user = generate_keypair();
    let user_id = to_identity(&user);

    initialize(&mut token, &admin_id);
    mint(&mut token, &admin, &user_id, 1);

    // Minting into an already-owned token fails and changes nothing.
    let nonce = token.nonce(&admin_id);
    let payload = token.mint_payload(&admin_id, nonce, &admin_id, 1);
    let auth = sign(&admin, &payload);
    assert_eq!(token.mint(&auth, nonce, &admin_id, 1), Err(Error::AlreadyMinted));
    assert!(token.owner(1).unwrap() == user_id);
    assert_eq!(token.balance(&user_id), 1);

    // A burned token is never mintable again.
    let nonce = token.nonce(&admin_id);
    let payload = token.burn_payload(&admin_id, nonce, 1);
    token.burn(&sign(&admin, &payload), nonce, 1).unwrap();
    let nonce = token.nonce(&admin_id);
    let payload = token.mint_payload(&admin_id, nonce, &user_id, 1);
    let auth = sign(&admin, &payload);
    assert_eq!(token.mint(&auth, nonce, &user_id, 1), Err(Error::AlreadyMinted));
}

#[test]
fn test_open_mint_policy() {
    let mut token = new_token_with(MintPolicy::Open);

    let admin = generate_keypair();
    let admin_id = to_identity(&admin);
    let user = generate_keypair();
    let user_id = to_identity(&user);

    initialize(&mut token, &admin_id);

    // Under the open policy anyone with a valid, nonce-gated signature may
    // mint.
    let nonce = token.nonce(&user_id);
    let payload = token.mint_payload(&user_id, nonce, &user_id, 5);
    token.mint(&sign(&user, &payload), nonce, &user_id, 5).unwrap();
    assert!(token.owner(5).unwrap() == user_id);
    assert_eq!(token.nonce(&user_id), 1);

    // Under the admin-gated policy the same caller is rejected.
    let mut gated = new_token();
    initialize(&mut gated, &admin_id);
    let nonce = gated.nonce(&user_id);
    let payload = gated.mint_payload(&user_id, nonce, &user_id, 5);
    assert_eq!(
        gated.mint(&sign(&user, &payload), nonce, &user_id, 5),
        Err(Error::NotAdmin)
    );
}

#[test]
fn test_uninitialized() {
    let mut token = new_token();

    let user = generate_keypair();
    let user_id = to_identity(&user);

    assert_eq!(token.admin().unwrap_err(), Error::Uninitialized);
    assert_eq!(token.name().unwrap_err(), Error::Uninitialized);
    assert_eq!(token.symbol().unwrap_err(), Error::Uninitialized);

    // An admin-gated mint cannot happen before initialization.
    let nonce = token.nonce(&user_id);
    let payload = token.mint_payload(&user_id, nonce, &user_id, 1);
    assert_eq!(
        token.mint(&sign(&user, &payload), nonce, &user_id, 1),
        Err(Error::Uninitialized)
    );
}

#[test]
fn test_unknown_token() {
    let mut token = new_token();

    let admin = generate_keypair();
    let admin_id = to_identity(&admin);

    initialize(&mut token, &admin_id);

    assert_eq!(token.owner(5).unwrap_err(), Error::UnknownToken);
    assert_eq!(token.token_uri(5).unwrap_err(), Error::UnknownToken);

    // Burning a token that was never minted fails with the same error.
    let nonce = token.nonce(&admin_id);
    let payload = token.burn_payload(&admin_id, nonce, 5);
    assert_eq!(token.burn(&sign(&admin, &payload), nonce, 5), Err(Error::UnknownToken));
}

#[test]
fn test_negative_balance_guard() {
    let mut token = new_token();

    let user = generate_keypair();
    let user_id = to_identity(&user);

    assert_eq!(read_balance(&token, &user_id), 0);
    assert_eq!(
        write_balance(&mut token, &user_id, WriteType::Remove),
        Err(Error::NegativeBalanceInvariantViolation)
    );
    assert_eq!(read_balance(&token, &user_id), 0);

    write_balance(&mut token, &user_id, WriteType::Add).unwrap();
    assert_eq!(read_balance(&token, &user_id), 1);
    write_balance(&mut token, &user_id, WriteType::Remove).unwrap();
    assert_eq!(read_balance(&token, &user_id), 0);
}

#[test]
fn test_events_only_on_success() {
    let mut token = new_token();

    let admin = generate_keypair();
    let admin_id = to_identity(&admin);
    let user = generate_keypair();
    let user_id = to_identity(&user);

    initialize(&mut token, &admin_id);
    assert_eq!(token.event_count(), 0);

    mint(&mut token, &admin, &user_id, 1);
    assert_eq!(token.event_count(), 1);

    // A failed burn emits nothing.
    let nonce = token.nonce(&user_id);
    let payload = token.burn_payload(&user_id, nonce, 1);
    assert_eq!(token.burn(&sign(&user, &payload), nonce, 1), Err(Error::NotAdmin));
    assert_eq!(token.event_count(), 1);

    // A successful burn emits exactly one event.
    let nonce = token.nonce(&admin_id);
    let payload = token.burn_payload(&admin_id, nonce, 1);
    token.burn(&sign(&admin, &payload), nonce, 1).unwrap();
    assert_eq!(token.event_count(), 2);
    assert!(matches!(token.event_at(0), Event::Mint { .. }));
    assert!(matches!(token.event_at(1), Event::Burn { .. }));
}

#[test]
fn test_payload_binding() {
    // The canonical payload binds the contract identity, so a signature
    // made for one contract never authorizes the same call on another.
    let mut token_a = NonFungibleToken::new(
        b"collection-a".to_vec(),
        b"test-network".to_vec(),
        MintPolicy::AdminOnly,
    );
    let mut token_b = NonFungibleToken::new(
        b"collection-b".to_vec(),
        b"test-network".to_vec(),
        MintPolicy::AdminOnly,
    );

    let admin = generate_keypair();
    let admin_id = to_identity(&admin);
    let user1 = generate_keypair();
    let user1_id = to_identity(&user1);
    let user2 = generate_keypair();
    let user2_id = to_identity(&user2);

    initialize(&mut token_a, &admin_id);
    initialize(&mut token_b, &admin_id);
    mint(&mut token_a, &admin, &user1_id, 1);
    let payload = token_b.mint_payload(&admin_id, token_b.nonce(&admin_id), &user1_id, 1);
    token_b.mint(&sign(&admin, &payload), token_b.nonce(&admin_id), &user1_id, 1).unwrap();

    // A transfer signed for collection A does not authorize one on B.
    let nonce = token_a.nonce(&user1_id);
    let payload_a = token_a.xfer_payload(&user1_id, nonce, &user2_id, 1);
    let auth = sign(&user1, &payload_a);
    assert_eq!(token_b.xfer(&auth, nonce, &user2_id, 1), Err(Error::NotOwner));
    assert!(token_b.owner(1).unwrap() == user1_id);
    token_a.xfer(&auth, nonce, &user2_id, 1).unwrap();
    assert!(token_a.owner(1).unwrap() == user2_id);
}

#[test]
fn test_component_accessors() {
    let mut token = new_token();

    let admin = generate_keypair();
    let admin_id = to_identity(&admin);
    let user = generate_keypair();
    let user_id = to_identity(&user);

    initialize(&mut token, &admin_id);
    mint(&mut token, &admin, &user_id, 3);

    assert!(read_owner(&token, 3).unwrap() == user_id);
    assert_eq!(read_owner(&token, 4).unwrap_err(), Error::UnknownToken);
    assert_eq!(check_owner(&token, &user_id, 3), Ok(()));
    assert_eq!(check_owner(&token, &admin_id, 3), Err(Error::NotOwner));
    assert_eq!(check_owner(&token, &user_id, 4), Err(Error::UnknownToken));

    // No operator approved yet: the sentinel stands in.
    assert!(token.get_appr(3).is_sentinel());
    assert!(zero_address().is_sentinel());

    assert_eq!(read_name(&token).unwrap(), b"Dogs".to_vec());
    assert_eq!(read_symbol(&token).unwrap(), b"DOG".to_vec());
    assert_eq!(to_bytes("DOG"), b"DOG".to_vec());
    write_name(&mut token, b"Cats".to_vec());
    write_symbol(&mut token, b"CAT".to_vec());
    assert_eq!(token.name().unwrap(), b"Cats".to_vec());
    assert_eq!(token.symbol().unwrap(), b"CAT".to_vec());

    assert_eq!(read_token_uri(&token, 3).unwrap(), token.token_uri(3).unwrap());
    write_token_uri(&mut token, 3, b"pug.json".to_vec());
    assert_eq!(token.token_uri(3).unwrap(), b"pug.json".to_vec());

    let assigned = get_rand_uri();
    assert!(
        assigned == NftURIs::Pug.value() || assigned == NftURIs::ShibaInu.value()
            || assigned == NftURIs::StBernard.value()
    );

    write_owner(&mut token, 9, &user_id);
    assert!(read_owner(&token, 9).unwrap() == user_id);
}
