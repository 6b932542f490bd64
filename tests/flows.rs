use ed25519_dalek::{Signer, SigningKey};
use fusion_escrow::contract::transfers_succeeded;
use fusion_escrow::{Contract, EscrowError, FtMessage, Settlement, SignedOrder, TimelockDelays};
use near_sdk::base64::Engine;

const SEC: u64 = 1_000_000_000;
const T0: u64 = 1_000 * SEC;
const SAFETY: u128 = 100_000_000_000_000_000_000_000;

fn s(x: &str) -> String {
    x.to_string()
}

fn b64(bytes: &[u8]) -> String {
    near_sdk::base64::engine::general_purpose::STANDARD.encode(bytes)
}

fn digest(bytes: &[u8]) -> [u8; 32] {
    near_sdk::env::sha256_array(bytes)
}

fn signing_key() -> SigningKey {
    SigningKey::from_bytes(&[9u8; 32])
}

fn maker_pk() -> Vec<u8> {
    let mut pk = vec![0u8];
    pk.extend_from_slice(&signing_key().verifying_key().to_bytes());
    pk
}

fn sign(o: &SignedOrder) -> String {
    let d = digest(&o.to_message_bytes());
    b64(&signing_key().sign(&d).to_bytes())
}

fn source_delays() -> TimelockDelays {
    TimelockDelays {
        src_withdrawal_delay: 0,
        src_public_withdrawal_delay: 300,
        src_cancellation_delay: 600,
        src_public_cancellation_delay: 900,
        dst_withdrawal_delay: 0,
        dst_public_withdrawal_delay: 120,
        dst_cancellation_delay: 240,
    }
}

fn order(nonce: u128, amount: u128, secret: &[u8], timelocks: TimelockDelays) -> SignedOrder {
    SignedOrder {
        nonce,
        maker_id: s("maker"),
        asset_id: s("token"),
        amount,
        hashlock: digest(secret),
        timelocks,
    }
}

/// A contract where the maker registered a key and deposited 1000 tokens.
fn funded() -> Contract {
    let mut c = Contract::new(s("owner"));
    c.register_keys(&s("maker"), vec![maker_pk()]);
    assert_eq!(c.ft_on_transfer(&s("token"), &s("maker"), 1000, FtMessage::Deposit, 0, T0), Ok(0));
    c
}

/// A funded contract where the resolver opened a source escrow over 100 tokens.
fn with_source_escrow() -> (Contract, SignedOrder) {
    let mut c = funded();
    let o = order(1, 100, b"secret1", source_delays());
    let r = c.initiate_source_escrow(o.clone(), &sign(&o), &maker_pk(), &s("resolver"), SAFETY, T0);
    assert_eq!(r, Ok(()));
    (c, o)
}

fn total(c: &Contract) -> u128 {
    c.deposits().get_total_balance(&s("maker"), &s("token"))
}

fn locked(c: &Contract) -> u128 {
    c.deposits().get_locked_balance(&s("maker"), &s("token"))
}

fn assert_transfer(p: &Settlement, receiver: &str, amount: u128) {
    let t = p.token_transfer.as_ref().expect("a token transfer");
    assert_eq!(t.token, "token");
    assert_eq!(t.receiver, receiver);
    assert_eq!(t.amount, amount);
}

#[test]
fn source_claim_happy_path() {
    let (mut c, o) = with_source_escrow();
    assert_eq!(locked(&c), 100);
    assert_eq!(total(&c), 1000);
    let e = c.get_escrow(&o.hashlock).expect("escrow stored");
    assert!(e.is_source && !e.claimed && !e.settled);
    assert_eq!(e.taker, "resolver");
    assert_eq!(e.safety_deposit, SAFETY);
    assert_eq!(e.timelocks.created_at, T0);
    assert!(c.is_nonce_used(1));

    let p = c.withdraw(&b64(b"secret1"), &s("resolver"), T0 + SEC).expect("claim");
    assert_transfer(&p, "resolver", 100);
    assert_eq!(p.deposit_receiver, "resolver");
    assert_eq!(p.safety_deposit, SAFETY);
    assert!(!p.is_cancel && p.is_source);
    assert!(c.get_escrow(&o.hashlock).unwrap().claimed);
    // nothing moves in the ledger before the settlement is confirmed
    assert_eq!(locked(&c), 100);

    assert_eq!(c.on_escrow_settled(&p.hashlock, false, true), Ok(()));
    assert_eq!(total(&c), 900);
    assert_eq!(locked(&c), 0);
    assert_eq!(c.get_available_balance(&s("maker"), &s("token")), 900);
    assert!(c.get_escrow(&o.hashlock).unwrap().settled);
}

#[test]
fn destination_claim_happy_path() {
    let mut c = Contract::new(s("owner"));
    let delays = TimelockDelays {
        src_withdrawal_delay: 0,
        src_public_withdrawal_delay: 650,
        src_cancellation_delay: 700,
        src_public_cancellation_delay: 800,
        dst_withdrawal_delay: 0,
        dst_public_withdrawal_delay: 300,
        dst_cancellation_delay: 600,
    };
    let msg = FtMessage::CreateDestinationEscrow {
        hashlock: digest(b"s2"),
        maker_id: s("M"),
        timelocks: delays,
    };
    assert_eq!(c.ft_on_transfer(&s("token"), &s("resolver"), 50, msg, SAFETY, T0), Ok(0));
    let e = c.get_escrow(&digest(b"s2")).expect("escrow stored");
    assert!(!e.is_source);
    assert_eq!(e.maker, "M");
    assert_eq!(e.taker, "resolver");

    // the maker is not the taker, so it acts in the public phase
    assert_eq!(c.withdraw(&b64(b"s2"), &s("M"), T0 + SEC).unwrap_err(), EscrowError::WrongPhase);
    let p = c.withdraw(&b64(b"s2"), &s("M"), T0 + 300 * SEC).expect("claim");
    assert_transfer(&p, "M", 50);
    assert_eq!(p.deposit_receiver, "M");
    assert_eq!(c.on_escrow_settled(&digest(b"s2"), false, true), Ok(()));
    // a destination escrow never touches the ledger
    assert_eq!(c.deposits().get_total_balance(&s("M"), &s("token")), 0);
    assert!(c.deposits().get_all_users_with_deposits().is_empty());
}

#[test]
fn source_cancel_path() {
    let (mut c, o) = with_source_escrow();
    assert_eq!(c.cancel(&o.hashlock, &s("resolver"), T0 + 599 * SEC).unwrap_err(), EscrowError::WrongPhase);
    assert_eq!(c.cancel(&o.hashlock, &s("x"), T0 + 700 * SEC).unwrap_err(), EscrowError::WrongPhase);
    let p = c.cancel(&o.hashlock, &s("resolver"), T0 + 700 * SEC).expect("cancel");
    assert!(p.token_transfer.is_none());
    assert!(p.is_cancel);
    assert_eq!(p.deposit_receiver, "resolver");
    assert_eq!(c.on_escrow_settled(&o.hashlock, true, true), Ok(()));
    assert_eq!(locked(&c), 0);
    assert_eq!(total(&c), 1000);
    let w = c.withdraw_deposit(&s("maker"), &s("token"), 1000).expect("withdrawal");
    assert_eq!((w.token.as_str(), w.receiver.as_str(), w.amount), ("token", "maker", 1000));
    assert_eq!(total(&c), 0);
}

#[test]
fn public_cancel_by_anyone_after_public_start() {
    let (mut c, o) = with_source_escrow();
    let p = c.cancel(&o.hashlock, &s("x"), T0 + 900 * SEC).expect("public cancel");
    assert_eq!(p.deposit_receiver, "x");
}

#[test]
fn public_phase_claim_by_third_party() {
    let (mut c, o) = with_source_escrow();
    assert_eq!(
        c.withdraw(&b64(b"secret1"), &s("x"), T0 + SEC).unwrap_err(),
        EscrowError::WrongPhase
    );
    let p = c.withdraw(&b64(b"secret1"), &s("x"), T0 + 350 * SEC).expect("public claim");
    assert_transfer(&p, "resolver", 100);
    assert_eq!(p.deposit_receiver, "x");
    assert!(c.get_escrow(&o.hashlock).unwrap().claimed);
}

#[test]
fn replay_rejection() {
    let (mut c, o) = with_source_escrow();
    let p = c.withdraw(&b64(b"secret1"), &s("resolver"), T0 + SEC).unwrap();
    c.on_escrow_settled(&p.hashlock, false, true).unwrap();
    let r = c.initiate_source_escrow(o.clone(), &sign(&o), &maker_pk(), &s("resolver"), SAFETY, T0);
    assert_eq!(r, Err(EscrowError::NonceReused));
    assert_eq!(total(&c), 900);
    assert_eq!(locked(&c), 0);
    assert!(c.get_escrow(&o.hashlock).unwrap().settled);
}

#[test]
fn hashlock_collision() {
    let (mut c, _) = with_source_escrow();
    let second = order(2, 10, b"secret1", source_delays());
    let r = c.initiate_source_escrow(second.clone(), &sign(&second), &maker_pk(), &s("r2"), SAFETY, T0);
    assert_eq!(r, Err(EscrowError::HashlockCollision));
    assert!(!c.is_nonce_used(2));
    assert_eq!(locked(&c), 100);
    let msg = FtMessage::CreateDestinationEscrow {
        hashlock: digest(b"secret1"),
        maker_id: s("M"),
        timelocks: source_delays(),
    };
    assert_eq!(
        c.ft_on_transfer(&s("token"), &s("r2"), 5, msg, SAFETY, T0),
        Err(EscrowError::HashlockCollision)
    );
}

#[test]
fn invalid_timelocks_refused() {
    let mut c = funded();
    let mut d = source_delays();
    d.src_cancellation_delay = 500;
    d.dst_cancellation_delay = 600;
    let o = order(3, 10, b"t", d);
    let r = c.initiate_source_escrow(o.clone(), &sign(&o), &maker_pk(), &s("resolver"), SAFETY, T0);
    assert_eq!(r, Err(EscrowError::InvalidTimelocks));
    assert!(!c.is_nonce_used(3));
    assert_eq!(locked(&c), 0);
    let msg = FtMessage::CreateDestinationEscrow { hashlock: digest(b"t"), maker_id: s("M"), timelocks: d };
    assert_eq!(
        c.ft_on_transfer(&s("token"), &s("r"), 5, msg, SAFETY, T0),
        Err(EscrowError::InvalidTimelocks)
    );
}

#[test]
fn settlement_failure_and_retry() {
    let (mut c, o) = with_source_escrow();
    let p = c.withdraw(&b64(b"secret1"), &s("resolver"), T0 + SEC).unwrap();
    assert_eq!(c.on_escrow_settled(&p.hashlock, false, false), Ok(()));
    let e = c.get_escrow(&o.hashlock).unwrap();
    assert!(!e.claimed && !e.settled);
    assert_eq!(locked(&c), 100);
    assert_eq!(total(&c), 1000);
    let again = c.withdraw(&b64(b"secret1"), &s("resolver"), T0 + 2 * SEC).expect("retry");
    assert_transfer(&again, "resolver", 100);
    assert_eq!(c.on_escrow_settled(&again.hashlock, false, true), Ok(()));
    assert_eq!(total(&c), 900);
    assert_eq!(locked(&c), 0);
}

#[test]
fn creation_errors() {
    let mut c = funded();
    let o = order(4, 100, b"e", source_delays());
    let sig = sign(&o);
    let run = |c: &mut Contract, o: SignedOrder, sig: &str, pk: &Vec<u8>, dep: u128| {
        c.initiate_source_escrow(o, sig, pk, &s("resolver"), dep, T0)
    };
    assert_eq!(run(&mut c, o.clone(), &sig, &maker_pk(), 0), Err(EscrowError::MissingSafetyDeposit));
    let mut stranger = vec![0u8];
    stranger.extend_from_slice(&SigningKey::from_bytes(&[1u8; 32]).verifying_key().to_bytes());
    assert_eq!(run(&mut c, o.clone(), &sig, &stranger, SAFETY), Err(EscrowError::KeyNotRegistered));
    assert_eq!(run(&mut c, o.clone(), "not base64!", &maker_pk(), SAFETY), Err(EscrowError::BadSigFormat));
    let mut tampered = o.clone();
    tampered.amount = 99;
    assert_eq!(run(&mut c, tampered, &sig, &maker_pk(), SAFETY), Err(EscrowError::BadSig));
    let big = order(5, 1001, b"big", source_delays());
    let big_sig = sign(&big);
    assert_eq!(run(&mut c, big, &big_sig, &maker_pk(), SAFETY), Err(EscrowError::InsufficientFunds));
    assert!(!c.is_nonce_used(4) && !c.is_nonce_used(5));
    let msg = FtMessage::CreateDestinationEscrow { hashlock: digest(b"d"), maker_id: s("M"), timelocks: source_delays() };
    assert_eq!(
        c.ft_on_transfer(&s("token"), &s("r"), 5, msg, 0, T0),
        Err(EscrowError::MissingSafetyDeposit)
    );
    let zero = order(6, 0, b"zero", source_delays());
    let zero_sig = sign(&zero);
    assert_eq!(run(&mut c, zero, &zero_sig, &maker_pk(), SAFETY), Err(EscrowError::InsufficientFunds));
    let msg = FtMessage::CreateDestinationEscrow { hashlock: digest(b"z"), maker_id: s("M"), timelocks: source_delays() };
    assert_eq!(c.ft_on_transfer(&s("token"), &s("r"), 0, msg, SAFETY, T0), Err(EscrowError::InsufficientFunds));
    assert_eq!(run(&mut c, o, &sig, &maker_pk(), SAFETY), Ok(()));
}

#[test]
fn claim_and_callback_errors() {
    let (mut c, o) = with_source_escrow();
    assert_eq!(c.withdraw("%%%", &s("resolver"), T0 + SEC).unwrap_err(), EscrowError::BadSecretFormat);
    assert_eq!(c.withdraw(&b64(b"wrong"), &s("resolver"), T0 + SEC).unwrap_err(), EscrowError::NotFound);
    assert_eq!(c.cancel(&[0u8; 32], &s("resolver"), T0).unwrap_err(), EscrowError::NotFound);
    assert_eq!(c.on_escrow_settled(&[0u8; 32], false, true), Err(EscrowError::NotFound));
    assert_eq!(c.on_escrow_settled(&o.hashlock, false, true), Err(EscrowError::NoSettlementPending));
    c.withdraw(&b64(b"secret1"), &s("resolver"), T0 + SEC).unwrap();
    assert_eq!(
        c.withdraw(&b64(b"secret1"), &s("resolver"), T0 + SEC).unwrap_err(),
        EscrowError::AlreadyClaimed
    );
    assert_eq!(c.cancel(&o.hashlock, &s("resolver"), T0 + 700 * SEC).unwrap_err(), EscrowError::AlreadyClaimed);
    assert_eq!(c.on_escrow_settled(&o.hashlock, false, true), Ok(()));
    assert_eq!(c.on_escrow_settled(&o.hashlock, false, true), Err(EscrowError::NoSettlementPending));
    assert_eq!(total(&c), 900);
}

#[test]
fn deposit_withdrawal_and_its_callback() {
    let mut c = funded();
    assert_eq!(c.withdraw_deposit(&s("maker"), &s("token"), 0).unwrap_err(), EscrowError::InsufficientFunds);
    assert_eq!(c.withdraw_deposit(&s("maker"), &s("token"), 1001).unwrap_err(), EscrowError::InsufficientFunds);
    c.withdraw_deposit(&s("maker"), &s("token"), 400).unwrap();
    assert_eq!(total(&c), 600);
    assert_eq!(c.on_deposit_withdrawn(&s("maker"), &s("token"), 400, true), Ok(()));
    assert_eq!(total(&c), 600);
    assert_eq!(c.on_deposit_withdrawn(&s("maker"), &s("token"), 400, false), Ok(()));
    assert_eq!(total(&c), 1000);
}

#[test]
fn locked_funds_cannot_be_withdrawn() {
    let (mut c, _) = with_source_escrow();
    assert_eq!(c.withdraw_deposit(&s("maker"), &s("token"), 901).unwrap_err(), EscrowError::InsufficientFunds);
    assert!(c.withdraw_deposit(&s("maker"), &s("token"), 900).is_ok());
    assert_eq!(total(&c), 100);
    assert_eq!(locked(&c), 100);
}

#[test]
fn deposit_overflow_is_refused() {
    let mut c = Contract::new(s("owner"));
    assert_eq!(c.ft_on_transfer(&s("t"), &s("a"), u128::MAX, FtMessage::Deposit, 0, T0), Ok(0));
    assert_eq!(
        c.ft_on_transfer(&s("t"), &s("a"), 1, FtMessage::Deposit, 0, T0),
        Err(EscrowError::AmountOverflow)
    );
    assert_eq!(c.get_available_balance(&s("a"), &s("t")), u128::MAX);
}

#[test]
fn key_registration_deduplicates() {
    let mut c = Contract::new(s("owner"));
    let (k1, k2, k3) = (vec![1u8, 1], vec![2u8], vec![3u8, 3, 3]);
    c.register_keys(&s("a"), vec![k1.clone(), k2.clone(), k1.clone()]);
    c.register_keys(&s("a"), vec![k2.clone(), k3.clone()]);
    assert_eq!(c.get_registered_keys(&s("a")), vec![k1, k2, k3]);
    assert!(c.get_registered_keys(&s("b")).is_empty());
    assert_eq!(c.get_owner(), "owner");
}

#[test]
fn snapshot_round_trip_keeps_behaviour() {
    let (c, o) = with_source_escrow();
    let snap = c.snapshot();
    assert_eq!(snap.owner_id, "owner");
    assert_eq!(snap.used_nonces, vec![1]);
    assert_eq!(snap.escrows.len(), 1);
    let mut back = Contract::restore(snap).expect("consistent state");
    assert_eq!(locked(&back), 100);
    assert_eq!(total(&back), 1000);
    assert!(back.is_nonce_used(1));
    assert_eq!(back.get_registered_keys(&s("maker")), vec![maker_pk()]);
    let p = back.withdraw(&b64(b"secret1"), &s("resolver"), T0 + SEC).expect("claim");
    back.on_escrow_settled(&p.hashlock, false, true).unwrap();
    assert_eq!(total(&back), 900);
    assert_eq!(locked(&back), 0);
    assert!(back.get_escrow(&o.hashlock).unwrap().settled);
}

#[test]
fn inconsistent_snapshots_are_refused() {
    let (c, _) = with_source_escrow();
    let mut snap = c.snapshot();
    // the locked balance no longer matches the live source escrow
    snap.balances[0].locked = 50;
    assert_eq!(Contract::restore(snap).err(), Some(EscrowError::InconsistentState));

    let mut dup = c.snapshot();
    let copy = dup.escrows[0].copy();
    dup.escrows.push(copy);
    assert_eq!(Contract::restore(dup).err(), Some(EscrowError::InconsistentState));

    let mut orphan = c.snapshot();
    orphan.balances.clear();
    assert_eq!(Contract::restore(orphan).err(), Some(EscrowError::InconsistentState));
}

fn with_destination_escrow() -> Contract {
    let mut c = Contract::new(s("owner"));
    let msg = FtMessage::CreateDestinationEscrow {
        hashlock: digest(b"s3"),
        maker_id: s("M"),
        timelocks: source_delays(),
    };
    assert_eq!(c.ft_on_transfer(&s("token"), &s("resolver"), 70, msg, SAFETY, T0), Ok(0));
    c
}

#[test]
fn destination_private_claim_by_the_taker() {
    let mut c = with_destination_escrow();
    let p = c.withdraw(&b64(b"s3"), &s("resolver"), T0 + SEC).expect("private claim");
    assert_transfer(&p, "M", 70);
    assert_eq!(p.deposit_receiver, "resolver");
    assert!(!p.is_source);
    // the destination claim window closes when cancellation opens
    let mut late = with_destination_escrow();
    assert_eq!(
        late.withdraw(&b64(b"s3"), &s("resolver"), T0 + 240 * SEC).unwrap_err(),
        EscrowError::WrongPhase
    );
}

#[test]
fn destination_cancel_returns_funds_to_the_taker() {
    let mut c = with_destination_escrow();
    let h = digest(b"s3");
    assert_eq!(c.cancel(&h, &s("x"), T0 + 239 * SEC).unwrap_err(), EscrowError::WrongPhase);
    let p = c.cancel(&h, &s("x"), T0 + 240 * SEC).expect("refund");
    assert_transfer(&p, "resolver", 70);
    assert_eq!(p.deposit_receiver, "x");
    assert_eq!(c.on_escrow_settled(&h, true, true), Ok(()));
    assert!(c.get_escrow(&h).unwrap().settled);
}

#[test]
fn settlement_outcomes_are_combined() {
    assert!(transfers_succeeded(&[]));
    assert!(transfers_succeeded(&[true, true]));
    assert!(!transfers_succeeded(&[true, false]));
    let (mut c, o) = with_source_escrow();
    let p = c.withdraw(&b64(b"secret1"), &s("resolver"), T0 + SEC).unwrap();
    assert_eq!(c.on_transfers_settled(&p.hashlock, false, &[true, false]), Ok(()));
    assert!(!c.get_escrow(&o.hashlock).unwrap().claimed);
    assert_eq!(total(&c), 1000);
    let p = c.withdraw(&b64(b"secret1"), &s("resolver"), T0 + SEC).unwrap();
    assert_eq!(c.on_transfers_settled(&p.hashlock, false, &[true, true]), Ok(()));
    assert_eq!(total(&c), 900);
    assert_eq!(locked(&c), 0);
}
