use access_nft::digest::{build_preimage, derive_token_id, push_be_u64};
use access_nft::registry::{AccessNftContract, Identity, NftMetadata, RegistryError};
use soroban_sdk::testutils::EnvTestConfig;
use soroban_sdk::{Bytes, Env};

fn identity(seed: u8) -> Identity {
    let mut encoded = vec![0u8, 0, 0, 18];
    encoded.extend(std::iter::repeat(seed).take(32));
    Identity::new(encoded)
}

fn setup() -> (AccessNftContract, Identity, Identity) {
    let mut contract = AccessNftContract::new();
    let admin = identity(1);
    let user = identity(2);
    assert_eq!(contract.initialize(admin.duplicate()), Ok(()));
    (contract, admin, user)
}

fn mint(contract: &mut AccessNftContract, user: &Identity, timestamp: u64) -> Result<[u8; 32], RegistryError> {
    contract.mint_nft(
        true,
        user.duplicate(),
        "Name".to_string(),
        "Desc".to_string(),
        "Img".to_string(),
        timestamp,
    )
}

fn sha256_via_host(data: &[u8]) -> [u8; 32] {
    let env = Env::new_with_config(EnvTestConfig { capture_snapshot_at_drop: false });
    env.crypto().sha256(&Bytes::from_slice(&env, data)).to_array()
}

#[test]
fn test_mint_and_access() {
    let (mut contract, _admin, user) = setup();
    let id = mint(&mut contract, &user, 1).unwrap();
    assert!(contract.get_owner(&id).is_some());
    assert!(contract.has_access(&user));
    let meta = contract.get_nft_metadata(&user).unwrap();
    assert!(meta.is_active);
}

#[test]
fn test_revoke_and_reactivate() {
    let (mut contract, _admin, user) = setup();
    let _ = mint(&mut contract, &user, 2).unwrap();
    contract.revoke_nft(true, &user).unwrap();
    assert!(!contract.has_access(&user));
    contract.reactivate_nft(true, &user).unwrap();
    assert!(contract.has_access(&user));
}

#[test]
fn initialize_twice_fails_and_keeps_first_admin() {
    let (mut contract, admin, _user) = setup();
    assert_eq!(contract.initialize(identity(9)), Err(RegistryError::AlreadyInitialized));
    assert_eq!(contract.admin().unwrap().encoded, admin.encoded);
    assert!(contract.is_initialized());
}

#[test]
fn fresh_registry_has_no_admin() {
    let contract = AccessNftContract::new();
    assert!(!contract.is_initialized());
    assert!(contract.admin().is_none());
}

#[test]
fn second_issue_to_same_identity_is_refused() {
    let (mut contract, _admin, user) = setup();
    let id = mint(&mut contract, &user, 5).unwrap();
    let again = contract.mint_nft(
        true,
        user.duplicate(),
        "Other".to_string(),
        "Else".to_string(),
        "Pic".to_string(),
        6,
    );
    assert_eq!(again, Err(RegistryError::AlreadyHasCredential));
    let meta = contract.get_nft_metadata(&user).unwrap();
    assert_eq!(
        meta,
        NftMetadata::new("Name".to_string(), "Desc".to_string(), "Img".to_string(), true)
    );
    assert_eq!(contract.get_owner(&id).unwrap().encoded, user.encoded);
}

#[test]
fn distinct_identities_get_distinct_tokens() {
    let (mut contract, _admin, user) = setup();
    let other = identity(3);
    let a = mint(&mut contract, &user, 7).unwrap();
    let b = mint(&mut contract, &other, 7).unwrap();
    assert_ne!(a, b);
    assert_eq!(contract.get_owner(&a).unwrap().encoded, user.encoded);
    assert_eq!(contract.get_owner(&b).unwrap().encoded, other.encoded);
}

#[test]
fn token_id_is_sha256_of_owner_name_and_timestamp() {
    let (mut contract, _admin, user) = setup();
    let id = mint(&mut contract, &user, 0x0102030405060708).unwrap();
    let mut preimage = user.encoded.clone();
    preimage.extend_from_slice(b"Name");
    preimage.extend_from_slice(&[1, 2, 3, 4, 5, 6, 7, 8]);
    assert_eq!(id, sha256_via_host(&preimage));
    assert_eq!(id, derive_token_id(&user.encoded, "Name", 0x0102030405060708));
    assert_ne!(&id[..], &preimage[..32]);
}

#[test]
fn token_id_depends_on_timestamp() {
    let a = derive_token_id(&[7, 7], "Name", 1);
    let b = derive_token_id(&[7, 7], "Name", 2);
    assert_ne!(a, b);
    assert_eq!(a, derive_token_id(&[7, 7], "Name", 1));
}

#[test]
fn preimage_layout() {
    let p = build_preimage(&[0xaa, 0xbb], "Né", 258);
    assert_eq!(p, vec![0xaa, 0xbb, b'N', 0xc3, 0xa9, 0, 0, 0, 0, 0, 0, 1, 2]);
}

#[test]
fn big_endian_timestamp_bytes() {
    let mut out = vec![9u8];
    push_be_u64(&mut out, u64::MAX - 1);
    assert_eq!(out, vec![9, 255, 255, 255, 255, 255, 255, 255, 254]);
}

#[test]
fn access_follows_liveness_and_metadata_keeps_fields() {
    let (mut contract, _admin, user) = setup();
    mint(&mut contract, &user, 3).unwrap();
    assert!(contract.has_access(&user));
    assert_eq!(contract.revoke_nft(true, &user), Ok(()));
    assert!(!contract.has_access(&user));
    let revoked = contract.get_nft_metadata(&user).unwrap();
    assert_eq!(revoked.name, "Name");
    assert_eq!(revoked.description, "Desc");
    assert_eq!(revoked.image_url, "Img");
    assert!(!revoked.is_active);
    assert_eq!(contract.reactivate_nft(true, &user), Ok(()));
    assert!(contract.has_access(&user));
    assert_eq!(
        contract.get_nft_metadata(&user).unwrap(),
        NftMetadata::new("Name".to_string(), "Desc".to_string(), "Img".to_string(), true)
    );
}

#[test]
fn revoke_and_reactivate_are_idempotent() {
    let (mut contract, _admin, user) = setup();
    mint(&mut contract, &user, 4).unwrap();
    assert_eq!(contract.revoke_nft(true, &user), Ok(()));
    assert_eq!(contract.revoke_nft(true, &user), Ok(()));
    assert!(!contract.has_access(&user));
    assert_eq!(contract.reactivate_nft(true, &user), Ok(()));
    assert_eq!(contract.reactivate_nft(true, &user), Ok(()));
    assert!(contract.has_access(&user));
}

#[test]
fn unauthorized_callers_change_nothing() {
    let (mut contract, _admin, user) = setup();
    let stranger = identity(4);
    let refused = contract.mint_nft(
        false,
        stranger.duplicate(),
        "Name".to_string(),
        "Desc".to_string(),
        "Img".to_string(),
        1,
    );
    assert_eq!(refused, Err(RegistryError::Unauthorized));
    assert!(contract.get_nft_metadata(&stranger).is_none());
    mint(&mut contract, &user, 1).unwrap();
    assert_eq!(contract.revoke_nft(false, &user), Err(RegistryError::Unauthorized));
    assert!(contract.has_access(&user));
    contract.revoke_nft(true, &user).unwrap();
    assert_eq!(contract.reactivate_nft(false, &user), Err(RegistryError::Unauthorized));
    assert!(!contract.has_access(&user));
}

#[test]
fn never_issued_identity_has_nothing() {
    let (contract, _admin, user) = setup();
    assert!(!contract.has_access(&user));
    assert!(contract.get_nft_metadata(&user).is_none());
}

#[test]
fn revoke_or_reactivate_without_credential_fails() {
    let (mut contract, _admin, user) = setup();
    assert_eq!(contract.revoke_nft(true, &user), Err(RegistryError::NoCredential));
    assert_eq!(contract.reactivate_nft(true, &user), Err(RegistryError::NoCredential));
}

#[test]
fn issue_revoke_then_revoke_unbound_identity() {
    let mut contract = AccessNftContract::new();
    let admin = identity(10);
    let user = identity(11);
    let unbound = identity(12);
    contract.initialize(admin).unwrap();
    let token = mint(&mut contract, &user, 1).unwrap();
    assert_eq!(contract.get_owner(&token).unwrap().encoded, user.encoded);
    assert!(contract.has_access(&user));
    contract.revoke_nft(true, &user).unwrap();
    assert!(!contract.has_access(&user));
    assert_eq!(contract.revoke_nft(true, &unbound), Err(RegistryError::NoCredential));
}

#[test]
fn empty_identity_and_name_are_accepted() {
    let (mut contract, _admin, _user) = setup();
    let empty = Identity::new(Vec::new());
    let id = contract
        .mint_nft(true, empty.duplicate(), String::new(), String::new(), String::new(), 0)
        .unwrap();
    assert_eq!(id, sha256_via_host(&[0u8; 8]));
    assert!(contract.has_access(&empty));
}
