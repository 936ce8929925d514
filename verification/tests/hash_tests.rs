use session_wire::felt::Felt252;
use session_wire::hash::{
    domain_name_felt, domain_type_hash_felt, domain_version_felt, session_type_hash_felt,
    starknet_message_prefix_felt, RawSession, StarknetDomain,
};
use starknet_core::types::Felt;
use starknet_core::utils::{cairo_short_string_to_felt, starknet_keccak};
use starknet_crypto::poseidon_hash_many;

const SESSION_TYPE_STRING: &str = "\"Session\"(\"Expires At\":\"timestamp\",\"Allowed Methods\":\"merkletree\",\"Metadata\":\"string\",\"Session Key\":\"felt\")";
const DOMAIN_TYPE_STRING: &str = "\"StarknetDomain\"(\"name\":\"shortstring\",\"version\":\"shortstring\",\"chainId\":\"shortstring\",\"revision\":\"shortstring\")";

fn sdk_of(f: &Felt252) -> Felt {
    let mut b = [0u8; 32];
    b[0..8].copy_from_slice(&f.l0.to_le_bytes());
    b[8..16].copy_from_slice(&f.l1.to_le_bytes());
    b[16..24].copy_from_slice(&f.l2.to_le_bytes());
    b[24..32].copy_from_slice(&f.l3.to_le_bytes());
    Felt::from_bytes_le(&b)
}

fn limbs_of(x: &Felt) -> Felt252 {
    let b = x.to_bytes_le();
    Felt252 {
        l0: u64::from_le_bytes(b[0..8].try_into().unwrap()),
        l1: u64::from_le_bytes(b[8..16].try_into().unwrap()),
        l2: u64::from_le_bytes(b[16..24].try_into().unwrap()),
        l3: u64::from_le_bytes(b[24..32].try_into().unwrap()),
    }
}

fn sample_session() -> RawSession {
    RawSession {
        expires_at: 1000,
        allowed_methods_root: Felt252::from_u64(7),
        metadata_hash: Felt252::from_u64(8),
        session_key_guid: Felt252::from_u64(9),
    }
}

#[test]
fn session_type_hash_matches_keccak() {
    let expect = starknet_keccak(SESSION_TYPE_STRING.as_bytes());
    assert_eq!(limbs_of(&expect), session_type_hash_felt());
}

#[test]
fn domain_type_hash_matches_keccak() {
    let expect = starknet_keccak(DOMAIN_TYPE_STRING.as_bytes());
    assert_eq!(limbs_of(&expect), domain_type_hash_felt());
}

#[test]
fn short_string_constants_match_encoding() {
    let name = cairo_short_string_to_felt("SessionAccount.session").unwrap();
    assert_eq!(limbs_of(&name), domain_name_felt());
    let version = cairo_short_string_to_felt("1").unwrap();
    assert_eq!(limbs_of(&version), domain_version_felt());
    let prefix = cairo_short_string_to_felt("StarkNet Message").unwrap();
    assert_eq!(limbs_of(&prefix), starknet_message_prefix_felt());
}

#[test]
fn struct_hash_matches_reference() {
    let session = sample_session();
    let got = sdk_of(&session.get_struct_hash_rev_1());
    let expect = poseidon_hash_many(&[
        starknet_keccak(SESSION_TYPE_STRING.as_bytes()),
        Felt::from(1000u64),
        Felt::from(7u64),
        Felt::from(8u64),
        Felt::from(9u64),
    ]);
    assert_eq!(got, expect);
}

#[test]
fn message_hash_matches_reference() {
    let session = sample_session();
    let chain_id = Felt252::from_u64(5);
    let address = Felt252::from_u64(1234);
    let got = sdk_of(&session.get_message_hash_rev_1(chain_id, address));

    let struct_hash = poseidon_hash_many(&[
        starknet_keccak(SESSION_TYPE_STRING.as_bytes()),
        Felt::from(1000u64),
        Felt::from(7u64),
        Felt::from(8u64),
        Felt::from(9u64),
    ]);
    let domain_hash = poseidon_hash_many(&[
        starknet_keccak(DOMAIN_TYPE_STRING.as_bytes()),
        cairo_short_string_to_felt("SessionAccount.session").unwrap(),
        cairo_short_string_to_felt("1").unwrap(),
        Felt::from(5u64),
        Felt::ONE,
    ]);
    let expect = poseidon_hash_many(&[
        cairo_short_string_to_felt("StarkNet Message").unwrap(),
        domain_hash,
        Felt::from(1234u64),
        struct_hash,
    ]);
    assert_eq!(got, expect);
}

#[test]
fn domain_struct_hash_matches_reference() {
    let domain = StarknetDomain {
        name: domain_name_felt(),
        version: domain_version_felt(),
        chain_id: Felt252::from_u64(5),
        revision: Felt252::from_u64(1),
    };
    let got = sdk_of(&domain.get_struct_hash_rev_1());
    let expect = poseidon_hash_many(&[
        starknet_keccak(DOMAIN_TYPE_STRING.as_bytes()),
        cairo_short_string_to_felt("SessionAccount.session").unwrap(),
        cairo_short_string_to_felt("1").unwrap(),
        Felt::from(5u64),
        Felt::ONE,
    ]);
    assert_eq!(got, expect);
}

#[test]
fn message_hash_deterministic() {
    let session = sample_session();
    let h1 = session.get_message_hash_rev_1(Felt252::from_u64(5), Felt252::from_u64(1234));
    let h2 = session.get_message_hash_rev_1(Felt252::from_u64(5), Felt252::from_u64(1234));
    assert_eq!(h1, h2);
}

#[test]
fn message_hash_separates_chains() {
    let session = sample_session();
    let address = Felt252::from_u64(1234);
    let h1 = session.get_message_hash_rev_1(Felt252::from_u64(1), address);
    let h2 = session.get_message_hash_rev_1(Felt252::from_u64(2), address);
    assert_ne!(h1, h2);
}

#[test]
fn message_hash_separates_contracts() {
    let session = sample_session();
    let chain_id = Felt252::from_u64(1);
    let h1 = session.get_message_hash_rev_1(chain_id, Felt252::from_u64(10));
    let h2 = session.get_message_hash_rev_1(chain_id, Felt252::from_u64(11));
    assert_ne!(h1, h2);
}

#[test]
fn struct_hash_sensitive_to_every_field() {
    let base = sample_session();
    let h = base.get_struct_hash_rev_1();
    let mut changed = base;
    changed.expires_at = 1001;
    assert_ne!(changed.get_struct_hash_rev_1(), h);
    let mut changed = base;
    changed.allowed_methods_root = Felt252::from_u64(70);
    assert_ne!(changed.get_struct_hash_rev_1(), h);
    let mut changed = base;
    changed.metadata_hash = Felt252::from_u64(80);
    assert_ne!(changed.get_struct_hash_rev_1(), h);
    let mut changed = base;
    changed.session_key_guid = Felt252::from_u64(90);
    assert_ne!(changed.get_struct_hash_rev_1(), h);
}

#[test]
fn struct_hash_is_not_an_input() {
    let base = sample_session();
    let h = base.get_struct_hash_rev_1();
    assert_ne!(h, session_type_hash_felt());
    assert_ne!(h, Felt252::from_u64(1000));
    assert_ne!(h, base.allowed_methods_root);
    assert_ne!(h, base.metadata_hash);
    assert_ne!(h, base.session_key_guid);
}
