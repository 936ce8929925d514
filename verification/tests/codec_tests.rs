use cainome_cairo_serde::CairoSerde;
use session_wire::codec::{
    decode_session, DecodeError, RawSessionToken, SignerSignature,
};
use session_wire::felt::Felt252;
use session_wire::hash::RawSession;
use starknet_core::types::Felt;

fn fe(x: u64) -> Felt252 {
    Felt252::from_u64(x)
}

fn sdk(f: &Felt252) -> Felt {
    let mut b = [0u8; 32];
    b[0..8].copy_from_slice(&f.l0.to_le_bytes());
    b[8..16].copy_from_slice(&f.l1.to_le_bytes());
    b[16..24].copy_from_slice(&f.l2.to_le_bytes());
    b[24..32].copy_from_slice(&f.l3.to_le_bytes());
    Felt::from_bytes_le(&b)
}

fn starknet_sig(pubkey: u64, r: u64, s: u64) -> SignerSignature {
    SignerSignature::Starknet { pubkey: fe(pubkey), r: fe(r), s: fe(s) }
}

fn p256_sig(seed: u64) -> SignerSignature {
    SignerSignature::Secp256r1 {
        pubkey_low: fe(seed),
        pubkey_high: fe(seed + 1),
        r_low: fe(seed + 2),
        r_high: fe(seed + 3),
        s_low: fe(seed + 4),
        s_high: fe(seed + 5),
    }
}

fn sample_session() -> RawSession {
    RawSession {
        expires_at: 1000,
        allowed_methods_root: fe(11),
        metadata_hash: fe(12),
        session_key_guid: fe(13),
    }
}

fn empty_token() -> RawSessionToken {
    RawSessionToken {
        session: sample_session(),
        session_authorization: vec![],
        session_signature: starknet_sig(21, 22, 23),
        guardian_signature: p256_sig(31),
        proofs: vec![],
    }
}

fn full_token() -> RawSessionToken {
    RawSessionToken {
        session: sample_session(),
        session_authorization: vec![fe(5), fe(6), fe(7)],
        session_signature: p256_sig(41),
        guardian_signature: starknet_sig(51, 52, 53),
        proofs: vec![vec![fe(61), fe(62)], vec![], vec![fe(63)]],
    }
}

#[test]
fn session_fields_encoded_in_order() {
    let token = empty_token();
    let enc = token.cairo_serialize();
    assert_eq!(enc[0], fe(1000));
    assert_eq!(enc[1], fe(11));
    assert_eq!(enc[2], fe(12));
    assert_eq!(enc[3], fe(13));
    let (session, used) = decode_session(&enc, 0).unwrap();
    assert_eq!(used, 4);
    assert_eq!(session, sample_session());
}

#[test]
fn empty_token_round_trips() {
    let token = empty_token();
    let enc = token.cairo_serialize();
    // session (4) + authorization (1 + 0) + native sig (1 + 3)
    // + P-256 sig (1 + 6) + proofs (1 + 0)
    assert_eq!(enc.len(), 4 + 1 + 4 + 7 + 1);
    assert_eq!(token.cairo_serialized_size(), enc.len());
    let (decoded, used) = RawSessionToken::cairo_deserialize(&enc, 0).unwrap();
    assert_eq!(used, enc.len());
    assert_eq!(decoded, token);
}

#[test]
fn full_token_round_trips() {
    let token = full_token();
    let enc = token.cairo_serialize();
    assert_eq!(token.cairo_serialized_size(), enc.len());
    let (decoded, used) = RawSessionToken::cairo_deserialize(&enc, 0).unwrap();
    assert_eq!(used, enc.len());
    assert_eq!(decoded, token);
}

#[test]
fn trailing_elements_are_ignored() {
    let token = full_token();
    let mut enc = token.cairo_serialize();
    let len = enc.len();
    enc.push(fe(999));
    enc.push(fe(998));
    let (decoded, used) = RawSessionToken::cairo_deserialize(&enc, 0).unwrap();
    assert_eq!(used, len);
    assert_eq!(decoded, token);
}

#[test]
fn decodes_at_nonzero_offset() {
    let token = full_token();
    let enc = token.cairo_serialize();
    let len = enc.len();
    let mut shifted = vec![fe(777), fe(888)];
    shifted.extend(enc);
    let (decoded, used) = RawSessionToken::cairo_deserialize(&shifted, 2).unwrap();
    assert_eq!(used, len);
    assert_eq!(decoded, token);
}

#[test]
fn every_proper_prefix_is_rejected() {
    let token = full_token();
    let enc = token.cairo_serialize();
    for n in 0..enc.len() {
        let prefix: Vec<Felt252> = enc[0..n].to_vec();
        assert!(RawSessionToken::cairo_deserialize(&prefix, 0).is_err());
    }
}

#[test]
fn empty_input_is_too_short() {
    let empty: Vec<Felt252> = vec![];
    assert_eq!(
        RawSessionToken::cairo_deserialize(&empty, 0),
        Err(DecodeError::TooShort)
    );
}

#[test]
fn oversized_timestamp_is_invalid_value() {
    let wide = Felt252 { l0: 1, l1: 1, l2: 0, l3: 0 };
    let input = vec![wide, fe(1), fe(2), fe(3)];
    assert_eq!(
        RawSessionToken::cairo_deserialize(&input, 0),
        Err(DecodeError::InvalidValue)
    );
}

#[test]
fn overlong_authorization_prefix_is_invalid_length() {
    // a valid session, then a length prefix that promises five more
    // elements than remain
    let input = vec![fe(1000), fe(11), fe(12), fe(13), fe(5)];
    assert_eq!(
        RawSessionToken::cairo_deserialize(&input, 0),
        Err(DecodeError::InvalidLength)
    );
}

#[test]
fn huge_authorization_prefix_is_invalid_length() {
    let wide = Felt252 { l0: 0, l1: 0, l2: 0, l3: 1 };
    let input = vec![fe(1000), fe(11), fe(12), fe(13), wide, fe(1)];
    assert_eq!(
        RawSessionToken::cairo_deserialize(&input, 0),
        Err(DecodeError::InvalidLength)
    );
}

#[test]
fn unknown_signature_tag_is_rejected() {
    let input = vec![fe(1000), fe(11), fe(12), fe(13), fe(0), fe(9), fe(1), fe(2), fe(3)];
    assert_eq!(
        RawSessionToken::cairo_deserialize(&input, 0),
        Err(DecodeError::UnknownTag)
    );
}

#[test]
fn truncated_proof_entry_is_rejected() {
    let token = full_token();
    let enc = token.cairo_serialize();
    // cut inside the last proof path's elements
    let prefix: Vec<Felt252> = enc[0..enc.len() - 1].to_vec();
    assert_eq!(
        RawSessionToken::cairo_deserialize(&prefix, 0),
        Err(DecodeError::InvalidLength)
    );
}

#[test]
fn authorization_segment_matches_cainome() {
    let token = full_token();
    let enc = token.cairo_serialize();
    let auth_sdk: Vec<Felt> = token.session_authorization.iter().map(sdk).collect();
    let reference = <Vec<Felt> as CairoSerde>::cairo_serialize(&auth_sdk);
    let segment: Vec<Felt> = enc[4..4 + reference.len()].iter().map(sdk).collect();
    assert_eq!(segment, reference);
    assert_eq!(
        <Vec<Felt> as CairoSerde>::cairo_serialized_size(&auth_sdk),
        reference.len()
    );
}

#[test]
fn proofs_segment_matches_cainome() {
    let token = full_token();
    let enc = token.cairo_serialize();
    let proofs_sdk: Vec<Vec<Felt>> = token
        .proofs
        .iter()
        .map(|p| p.iter().map(sdk).collect())
        .collect();
    let reference = <Vec<Vec<Felt>> as CairoSerde>::cairo_serialize(&proofs_sdk);
    let start = enc.len() - reference.len();
    let segment: Vec<Felt> = enc[start..].iter().map(sdk).collect();
    assert_eq!(segment, reference);
}
