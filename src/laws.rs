use vstd::prelude::*;

use crate::contract::{claim_open, Contract};
use crate::error::EscrowError;
use crate::escrow::Settlement;
use crate::signatures::{sha256_of, SignedOrder};
use crate::timelocks::TimelockDelays;

verus! {

/// Revealing `secret` authorizes a claim exactly when some stored escrow has
/// the SHA-256 digest of `secret` as its hashlock, is not claimed, and its
/// phase admits the caller.
pub proof fn lemma_secret_authorizes_claim(s: Contract, secret: Seq<u8>, caller: String, now: u64)
    requires
        s.wf(),
    ensures
        s.claim_result(sha256_of(secret), caller, now) is Ok <==> exists|h: Seq<u8>|
            {
                &&& #[trigger] s.escrow_map().contains_key(h)
                &&& s.escrow_map()[h].hashlock@ == sha256_of(secret)
                &&& !s.escrow_map()[h].claimed
                &&& claim_open(s.escrow_map()[h], caller@, now)
            },
{
    let d = sha256_of(secret);
    if s.escrow_map().contains_key(d) {
        s.lemma_stored_escrow(d);
    }
    assert forall|h: Seq<u8>|
        #[trigger] s.escrow_map().contains_key(h) && s.escrow_map()[h].hashlock@ == d implies h
        == d by {
        s.lemma_stored_escrow(h);
    }
}

/// Opening a source escrow, claiming it and having the settlement confirmed
/// takes the amount out of the maker's total and releases the lock: nothing
/// of the escrow stays available, and the rest of the maker's balance is as
/// before the escrow.
pub proof fn lemma_source_claim_settles(
    s0: Contract,
    s1: Contract,
    s2: Contract,
    s3: Contract,
    params: SignedOrder,
    signature: Seq<char>,
    public_key: Seq<u8>,
    resolver: String,
    attached_deposit: u128,
    created: u64,
    caller: String,
    now: u64,
    plan: Settlement,
)
    requires
        s0.wf(),
        s1.wf(),
        Contract::initiate_post(
            s0,
            s1,
            params,
            signature,
            public_key,
            resolver,
            attached_deposit,
            created,
            Ok(()),
        ),
        s1.claim_result(params.hashlock@, caller, now) == Ok::<Settlement, EscrowError>(plan),
        Contract::flagged(s1, s2, params.hashlock@, Ok(plan)),
        Contract::settle_post(s2, s3, params.hashlock@, false, true, Ok(())),
    ensures
        s3.ledger().total_of(params.maker_id@, params.asset_id@) + params.amount == s0.ledger().total_of(
            params.maker_id@,
            params.asset_id@,
        ),
        s3.ledger().locked_of(params.maker_id@, params.asset_id@) == s0.ledger().locked_of(
            params.maker_id@,
            params.asset_id@,
        ),
        s3.ledger().available_of(params.maker_id@, params.asset_id@) + params.amount
            == s0.ledger().available_of(params.maker_id@, params.asset_id@),
        s3.escrow_map()[params.hashlock@].settled,
{
    let a = params.maker_id@;
    let t = params.asset_id@;
    s0.lemma_locked_within_total(a, t);
    s1.lemma_locked_within_total(a, t);
}

/// Opening a source escrow, refunding it and having the settlement confirmed
/// gives the maker back exactly the balances it had before the escrow.
pub proof fn lemma_source_cancel_restores(
    s0: Contract,
    s1: Contract,
    s2: Contract,
    s3: Contract,
    params: SignedOrder,
    signature: Seq<char>,
    public_key: Seq<u8>,
    resolver: String,
    attached_deposit: u128,
    created: u64,
    caller: String,
    now: u64,
    plan: Settlement,
)
    requires
        s0.wf(),
        s1.wf(),
        Contract::initiate_post(
            s0,
            s1,
            params,
            signature,
            public_key,
            resolver,
            attached_deposit,
            created,
            Ok(()),
        ),
        s1.cancel_result(params.hashlock@, caller, now) == Ok::<Settlement, EscrowError>(plan),
        Contract::flagged(s1, s2, params.hashlock@, Ok(plan)),
        Contract::settle_post(s2, s3, params.hashlock@, true, true, Ok(())),
    ensures
        s3.ledger().total_of(params.maker_id@, params.asset_id@) == s0.ledger().total_of(
            params.maker_id@,
            params.asset_id@,
        ),
        s3.ledger().locked_of(params.maker_id@, params.asset_id@) == s0.ledger().locked_of(
            params.maker_id@,
            params.asset_id@,
        ),
        s3.ledger().available_of(params.maker_id@, params.asset_id@) == s0.ledger().available_of(
            params.maker_id@,
            params.asset_id@,
        ),
        s3.escrow_map()[params.hashlock@].settled,
{
    let a = params.maker_id@;
    let t = params.asset_id@;
    s0.lemma_locked_within_total(a, t);
    s1.lemma_locked_within_total(a, t);
}

/// A failed settlement callback puts the escrow, the ledger and the held
/// deposits back as they were before the claim or refund, so every claim or
/// refund answers as it did then: the one that was tried succeeds again.
pub proof fn lemma_failed_settlement_reopens(
    s1: Contract,
    s2: Contract,
    s3: Contract,
    h: Seq<u8>,
    plan: Settlement,
    is_cancel: bool,
)
    requires
        s1.wf(),
        s1.escrow_map().contains_key(h),
        !s1.escrow_map()[h].claimed,
        Contract::flagged(s1, s2, h, Ok(plan)),
        Contract::settle_post(s2, s3, h, is_cancel, false, Ok(())),
    ensures
        s3.escrow_map() == s1.escrow_map(),
        s3.ledger()@ == s1.ledger()@,
        s3.safety_held() == s1.safety_held(),
        forall|caller: String, now: u64|
            #![trigger s3.claim_result(h, caller, now)]
            #![trigger s3.cancel_result(h, caller, now)]
            s3.claim_result(h, caller, now) == s1.claim_result(h, caller, now) && s3.cancel_result(
                h,
                caller,
                now,
            ) == s1.cancel_result(h, caller, now),
{
    s1.lemma_stored_escrow(h);
    assert(s3.escrow_map() =~= s1.escrow_map());
}

/// A consumed nonce never opens another escrow: an order that carries it is
/// refused, whatever else it holds.
pub proof fn lemma_nonce_single_use(
    s: Contract,
    params: SignedOrder,
    signature: Seq<char>,
    public_key: Seq<u8>,
    attached_deposit: u128,
)
    requires
        s.nonces().contains(params.nonce),
    ensures
        s.initiate_result(params, signature, public_key, attached_deposit) is Err,
{
}

/// A hashlock that is taken never opens a second escrow, on either side:
/// the attempt fails, and once the safety deposit, the amount and the delays
/// pass it fails `HashlockCollision`.
pub proof fn lemma_hashlock_taken(
    s: Contract,
    hashlock: [u8; 32],
    amount: u128,
    delays: TimelockDelays,
    attached_deposit: u128,
    params: SignedOrder,
    signature: Seq<char>,
    public_key: Seq<u8>,
)
    requires
        s.escrow_map().contains_key(hashlock@),
        s.escrow_map().contains_key(params.hashlock@),
    ensures
        s.destination_result(hashlock, amount, delays, attached_deposit) is Err,
        attached_deposit > 0 && amount > 0 && delays.is_valid() ==> s.destination_result(
            hashlock,
            amount,
            delays,
            attached_deposit,
        ) == Err::<(), EscrowError>(EscrowError::HashlockCollision),
        s.initiate_result(params, signature, public_key, attached_deposit) is Err,
{
}

} // verus!
