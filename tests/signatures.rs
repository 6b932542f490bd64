use ed25519_dalek::{Signer, SigningKey};
use fusion_escrow::{verify_maker_signature, EscrowError, SignedOrder, TimelockDelays};

fn delays() -> TimelockDelays {
    TimelockDelays {
        src_withdrawal_delay: 0,
        src_public_withdrawal_delay: 300,
        src_cancellation_delay: 600,
        src_public_cancellation_delay: 900,
        dst_withdrawal_delay: 0,
        dst_public_withdrawal_delay: 120,
        dst_cancellation_delay: 240,
    }
}

fn order(nonce: u128) -> SignedOrder {
    SignedOrder {
        nonce,
        maker_id: "maker.near".to_string(),
        asset_id: "token.near".to_string(),
        amount: 100,
        hashlock: [7u8; 32],
        timelocks: delays(),
    }
}

fn expected_bytes(o: &SignedOrder) -> Vec<u8> {
    let mut v = Vec::new();
    v.extend_from_slice(&o.nonce.to_le_bytes());
    v.extend_from_slice(&(o.maker_id.len() as u32).to_le_bytes());
    v.extend_from_slice(o.maker_id.as_bytes());
    v.extend_from_slice(&(o.asset_id.len() as u32).to_le_bytes());
    v.extend_from_slice(o.asset_id.as_bytes());
    v.extend_from_slice(&o.amount.to_le_bytes());
    v.extend_from_slice(&o.hashlock);
    let d = &o.timelocks;
    for x in [
        d.src_withdrawal_delay,
        d.src_public_withdrawal_delay,
        d.src_cancellation_delay,
        d.src_public_cancellation_delay,
        d.dst_withdrawal_delay,
        d.dst_public_withdrawal_delay,
        d.dst_cancellation_delay,
    ] {
        v.extend_from_slice(&x.to_le_bytes());
    }
    v
}

fn key() -> SigningKey {
    SigningKey::from_bytes(&[42u8; 32])
}

fn public_key() -> Vec<u8> {
    let mut pk = vec![0u8];
    pk.extend_from_slice(&key().verifying_key().to_bytes());
    pk
}

fn sign(o: &SignedOrder) -> Vec<u8> {
    let digest = near_sdk::env::sha256_array(&o.to_message_bytes());
    key().sign(&digest).to_bytes().to_vec()
}

#[test]
fn message_bytes_follow_the_canonical_layout() {
    let o = order(0x0102_0304);
    let bytes = o.to_message_bytes();
    assert_eq!(bytes, expected_bytes(&o));
    assert_eq!(bytes.len(), 16 + 4 + 10 + 4 + 10 + 16 + 32 + 56);
    assert_eq!(&bytes[0..4], &[4, 3, 2, 1]);
    assert_eq!(&bytes[16..20], &[10, 0, 0, 0]);
}

#[test]
fn a_valid_signature_consumes_the_nonce() {
    let o = order(1);
    let mut nonces: Vec<u128> = vec![5];
    let r = verify_maker_signature(&o, &sign(&o), &public_key(), &mut nonces);
    assert_eq!(r, Ok(()));
    assert_eq!(nonces, vec![5, 1]);
}

#[test]
fn a_reused_nonce_is_refused() {
    let o = order(1);
    let mut nonces: Vec<u128> = vec![1];
    let r = verify_maker_signature(&o, &sign(&o), &public_key(), &mut nonces);
    assert_eq!(r, Err(EscrowError::NonceReused));
    assert_eq!(nonces, vec![1]);
}

#[test]
fn a_signature_over_another_order_is_refused() {
    let o = order(1);
    let mut other = order(1);
    other.amount = 101;
    let mut nonces: Vec<u128> = Vec::new();
    let r = verify_maker_signature(&other, &sign(&o), &public_key(), &mut nonces);
    assert_eq!(r, Err(EscrowError::BadSig));
    assert!(nonces.is_empty());
}

#[test]
fn malformed_signature_or_key_is_refused() {
    let o = order(1);
    let mut nonces: Vec<u128> = Vec::new();
    let sig = sign(&o);
    assert_eq!(
        verify_maker_signature(&o, &sig[..63], &public_key(), &mut nonces),
        Err(EscrowError::BadSigFormat)
    );
    assert_eq!(
        verify_maker_signature(&o, &sig, &public_key()[1..], &mut nonces),
        Err(EscrowError::BadSigFormat)
    );
    assert!(nonces.is_empty());
}
