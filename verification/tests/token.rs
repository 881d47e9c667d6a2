use ed25519_dalek::{Keypair, Signer};
use rand::thread_rng;

use nft_engine::auth::AuthSig;
use nft_engine::contract::NonFungibleToken;
use nft_engine::errors::Error;
use nft_engine::identity::Identity;
use nft_engine::metadata::NftURIs;
use nft_engine::model::MintPolicy;
use nft_engine::owner::zero_address;

fn generate_keypair() -> Keypair {
    Keypair::generate(&mut thread_rng())
}

fn to_identity(kp: &Keypair) -> Identity {
    Identity::from_bytes(kp.public.to_bytes().to_vec())
}

fn sign(kp: &Keypair, payload: &[u8]) -> AuthSig {
    AuthSig::Ed25519 {
        public_key: kp.public.to_bytes().to_vec(),
        signature: kp.sign(payload).to_bytes().to_vec(),
    }
}

fn new_token() -> NonFungibleToken {
    NonFungibleToken::new(
        b"collection-under-test".to_vec(),
        b"test-network".to_vec(),
        MintPolicy::AdminOnly,
    )
}

fn initialize(t: &mut NonFungibleToken, admin: &Identity) {
    t.initialize(admin, b"Dogs".to_vec(), b"DOG".to_vec()).unwrap();
}

fn mint(t: &mut NonFungibleToken, admin: &Keypair, to: &Identity, id: i128) {
    let admin_id = to_identity(admin);
    let nonce = t.nonce(&admin_id);
    let payload = t.mint_payload(&admin_id, nonce, to, id);
    let auth = sign(admin, &payload);
    t.mint(&auth, nonce, to, id).unwrap();
}

fn burn(t: &mut NonFungibleToken, admin: &Keypair, id: i128) {
    let admin_id = to_identity(admin);
    let nonce = t.nonce(&admin_id);
    let payload = t.burn_payload(&admin_id, nonce, id);
    let auth = sign(admin, &payload);
    t.burn(&auth, nonce, id).unwrap();
}

fn xfer(t: &mut NonFungibleToken, from: &Keypair, to: &Identity, id: i128) {
    let from_id = to_identity(from);
    let nonce = t.nonce(&from_id);
    let payload = t.xfer_payload(&from_id, nonce, to, id);
    let auth = sign(from, &payload);
    t.xfer(&auth, nonce, to, id).unwrap();
}

fn xfer_from(
    t: &mut NonFungibleToken,
    spender: &Keypair,
    from: &Identity,
    to: &Identity,
    id: i128,
) {
    let spender_id = to_identity(spender);
    let nonce = t.nonce(&spender_id);
    let payload = t.xfer_from_payload(&spender_id, nonce, from, to, id);
    let auth = sign(spender, &payload);
    t.xfer_from(&auth, nonce, from, to, id).unwrap();
}

fn appr(t: &mut NonFungibleToken, owner: &Keypair, operator: &Identity, id: i128) {
    let owner_id = to_identity(owner);
    let nonce = t.nonce(&owner_id);
    let payload = t.appr_payload(&owner_id, nonce, operator, id);
    let auth = sign(owner, &payload);
    t.appr(&auth, nonce, operator, id).unwrap();
}

fn appr_all(t: &mut NonFungibleToken, owner: &Keypair, operator: &Identity) {
    let owner_id = to_identity(owner);
    let nonce = t.nonce(&owner_id);
    let payload = t.appr_all_payload(&owner_id, nonce, operator, true);
    let auth = sign(owner, &payload);
    t.appr_all(&auth, nonce, operator, true).unwrap();
}

fn set_admin(t: &mut NonFungibleToken, admin: &Keypair, new_admin: &Identity) {
    let admin_id = to_identity(admin);
    let nonce = t.nonce(&admin_id);
    let payload = t.set_admin_payload(&admin_id, nonce, new_admin);
    let auth = sign(admin, &payload);
    t.set_admin(&auth, nonce, new_admin).unwrap();
}

#[test]
fn test_mint() {
    let mut token = new_token();

    let admin = generate_keypair();
    let admin_id = to_identity(&admin);
    let user = generate_keypair();
    let user_id = to_identity(&user);

    initialize(&mut token, &admin_id);

    mint(&mut token, &admin, &user_id, 1);
    assert_eq!(token.balance(&user_id), 1);
    assert_eq!(token.nonce(&admin_id), 1);
    assert!(token.owner(1).unwrap() == user_id);

    let uri = token.token_uri(1).unwrap();
    assert!(
        uri == NftURIs::Pug.value() || uri == NftURIs::ShibaInu.value()
            || uri == NftURIs::StBernard.value()
    );
}

#[test]
fn test_burn_admin() {
    let mut token = new_token();

    let admin = generate_keypair();
    let admin_id = to_identity(&admin);
    let user = generate_keypair();
    let user_id = to_identity(&user);

    initialize(&mut token, &admin_id);

    mint(&mut token, &admin, &user_id, 1);
    assert_eq!(token.balance(&user_id), 1);
    assert_eq!(token.nonce(&admin_id), 1);
    assert!(token.owner(1).unwrap() == user_id);

    burn(&mut token, &admin, 1);
    assert_eq!(token.balance(&user_id), 0);
    assert!(token.owner(1).unwrap() == zero_address());
}

#[test]
fn test_xfer() {
    let mut token = new_token();

    let admin = generate_keypair();
    let admin_id = to_identity(&admin);
    let user1 = generate_keypair();
    let user1_id = to_identity(&user1);
    let user2 = generate_keypair();
    let user2_id = to_identity(&user2);

    initialize(&mut token, &admin_id);

    mint(&mut token, &admin, &user1_id, 1);
    assert_eq!(token.balance(&user1_id), 1);
    assert_eq!(token.balance(&user2_id), 0);
    assert_eq!(token.nonce(&admin_id), 1);
    assert!(token.owner(1).unwrap() == user1_id);

    xfer(&mut token, &user1, &user2_id, 1);
    assert_eq!(token.balance(&user1_id), 0);
    assert_eq!(token.balance(&user2_id), 1);
    assert_eq!(token.nonce(&user1_id), 1);
    assert!(token.owner(1).unwrap() == user2_id);
}

#[test]
fn test_xfer_non_owner() {
    let mut token = new_token();

    let admin = generate_keypair();
    let admin_id = to_identity(&admin);
    let user1 = generate_keypair();
    let user1_id = to_identity(&user1);
    let user2 = generate_keypair();
    let user2_id = to_identity(&user2);

    initialize(&mut token, &admin_id);

    mint(&mut token, &admin, &user1_id, 1);
    assert_eq!(token.balance(&user1_id), 1);
    assert_eq!(token.nonce(&admin_id), 1);
    assert!(token.owner(1).unwrap() == user1_id);

    // A token that was never minted cannot be transferred.
    let nonce = token.nonce(&user1_id);
    let payload = token.xfer_payload(&user1_id, nonce, &user2_id, 2);
    let auth = sign(&user1, &payload);
    assert_eq!(token.xfer(&auth, nonce, &user2_id, 2), Err(Error::UnknownToken));

    // A signer who is not the owner cannot transfer the token.
    let nonce = token.nonce(&user2_id);
    let payload = token.xfer_payload(&user2_id, nonce, &user2_id, 1);
    let auth = sign(&user2, &payload);
    assert_eq!(token.xfer(&auth, nonce, &user2_id, 1), Err(Error::NotOwner));
    assert!(token.owner(1).unwrap() == user1_id);
    assert_eq!(token.balance(&user1_id), 1);
}

#[test]
fn test_xfer_from_appr_id() {
    let mut token = new_token();

    let admin = generate_keypair();
    let user1 = generate_keypair();
    let user2 = generate_keypair();
    let user3 = generate_keypair();
    let admin_id = to_identity(&admin);
    let user1_id = to_identity(&user1);
    let user2_id = to_identity(&user2);
    let user3_id = to_identity(&user3);

    initialize(&mut token, &admin_id);

    mint(&mut token, &admin, &user1_id, 1);
    assert_eq!(token.balance(&user1_id), 1);
    assert_eq!(token.nonce(&admin_id), 1);
    assert!(token.owner(1).unwrap() == user1_id);

    appr(&mut token, &user1, &user3_id, 1);
    assert!(token.get_appr(1) == user3_id);

    xfer_from(&mut token, &user3, &user1_id, &user2_id, 1);
    assert_eq!(token.balance(&user2_id), 1);
    assert_eq!(token.balance(&user1_id), 0);
    assert_eq!(token.nonce(&admin_id), 1);
    assert!(token.owner(1).unwrap() == user2_id);
    assert!(token.get_appr(1) == zero_address());
}

#[test]
fn test_xfer_from_appr_all() {
    let mut token = new_token();

    let admin = generate_keypair();
    let user1 = generate_keypair();
    let user2 = generate_keypair();
    let user3 = generate_keypair();
    let admin_id = to_identity(&admin);
    let user1_id = to_identity(&user1);
    let user2_id = to_identity(&user2);
    let user3_id = to_identity(&user3);

    initialize(&mut token, &admin_id);

    mint(&mut token, &admin, &user1_id, 1);
    assert_eq!(token.balance(&user1_id), 1);
    assert_eq!(token.nonce(&admin_id), 1);
    assert!(token.owner(1).unwrap() == user1_id);

    appr_all(&mut token, &user1, &user3_id);
    assert!(token.is_appr(&user1_id, &user3_id));

    xfer_from(&mut token, &user3, &user1_id, &user2_id, 1);
    assert_eq!(token.balance(&user2_id), 1);
    assert_eq!(token.balance(&user1_id), 0);
    assert_eq!(token.nonce(&admin_id), 1);
    assert!(token.owner(1).unwrap() == user2_id);
    assert!(token.get_appr(1) == zero_address());
}

#[test]
fn test_xfer_from_non_approved() {
    let mut token = new_token();

    let admin1 = generate_keypair();
    let user1 = generate_keypair();
    let user2 = generate_keypair();
    let user3 = generate_keypair();
    let admin1_id = to_identity(&admin1);
    let user1_id = to_identity(&user1);
    let user2_id = to_identity(&user2);
    let user3_id = to_identity(&user3);

    initialize(&mut token, &admin1_id);

    mint(&mut token, &admin1, &user1_id, 1);
    assert_eq!(token.balance(&user1_id), 1);
    assert_eq!(token.nonce(&admin1_id), 1);
    assert!(token.owner(1).unwrap() == user1_id);

    let nonce = token.nonce(&user3_id);
    let payload = token.xfer_from_payload(&user3_id, nonce, &user1_id, &user2_id, 1);
    let auth = sign(&user3, &payload);
    assert_eq!(
        token.xfer_from(&auth, nonce, &user1_id, &user2_id, 1),
        Err(Error::NotApproved)
    );

    // Owner and balances are unchanged.
    assert!(token.owner(1).unwrap() == user1_id);
    assert_eq!(token.balance(&user1_id), 1);
    assert_eq!(token.balance(&user2_id), 0);
    assert_eq!(token.nonce(&user3_id), 0);
}

#[test]
fn test_initialize_already_initialized() {
    let mut token = new_token();

    let admin1 = generate_keypair();
    let admin1_id = to_identity(&admin1);
    let admin2 = generate_keypair();
    let admin2_id = to_identity(&admin2);

    initialize(&mut token, &admin1_id);
    assert_eq!(
        token.initialize(&admin2_id, b"Cats".to_vec(), b"CAT".to_vec()),
        Err(Error::AlreadyInitialized)
    );

    // The second call altered neither name, nor symbol, nor administrator.
    assert_eq!(token.name().unwrap(), b"Dogs".to_vec());
    assert_eq!(token.symbol().unwrap(), b"DOG".to_vec());
    assert!(token.admin().unwrap() == admin1_id);
}

#[test]
fn test_set_admin_bad_actor() {
    let mut token = new_token();

    let admin = generate_keypair();
    let user = generate_keypair();
    let admin_id = to_identity(&admin);
    let user_id = to_identity(&user);

    initialize(&mut token, &admin_id);

    let nonce = token.nonce(&user_id);
    let payload = token.set_admin_payload(&user_id, nonce, &user_id);
    let auth = sign(&user, &payload);
    assert_eq!(token.set_admin(&auth, nonce, &user_id), Err(Error::NotAdmin));
    assert!(token.admin().unwrap() == admin_id);
}

#[test]
fn test_set_admin_rotation() {
    let mut token = new_token();

    let admin1 = generate_keypair();
    let admin2 = generate_keypair();
    let admin1_id = to_identity(&admin1);
    let admin2_id = to_identity(&admin2);
    let user = generate_keypair();
    let user_id = to_identity(&user);

    initialize(&mut token, &admin1_id);
    set_admin(&mut token, &admin1, &admin2_id);
    assert!(token.admin().unwrap() == admin2_id);

    // The new administrator can mint; the old one no longer can.
    mint(&mut token, &admin2, &user_id, 7);
    assert!(token.owner(7).unwrap() == user_id);

    let nonce = token.nonce(&admin1_id);
    let payload = token.mint_payload(&admin1_id, nonce, &user_id, 8);
    let auth = sign(&admin1, &payload);
    assert_eq!(token.mint(&auth, nonce, &user_id, 8), Err(Error::NotAdmin));
}
