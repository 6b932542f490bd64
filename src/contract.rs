use vstd::prelude::*;

use crate::deposit::{balance_key, balance_val, sat_sub, BalanceEntry, DepositManager};
use crate::error::EscrowError;
use crate::escrow::{
    escrow_key, escrow_val, locked_weight, Asset, Escrow, EscrowStore, FtMessage, Settlement,
    TokenTransfer,
};
use crate::keyed::{keys_unique, lemma_records_domain, lemma_records_lookup, records_map, sum_of};
use crate::registry::{key_record_key, key_record_val, keys_view, with_new_keys, KeyRecord, KeyRegistry};
use crate::signatures::{
    base64_decoded, decode_base64, nonce_used, sha256, sha256_of, signature_check,
    verify_maker_signature, SignedOrder,
};
use crate::timelocks::{TimelockDelays, Timelocks};

verus! {

/// Whether `caller` may claim `e` at `now`: anyone but the taker acts in the
/// public phase.
pub open spec fn claim_open(e: Escrow, caller: Seq<char>, now: u64) -> bool {
    let is_public = caller != e.taker@;
    if e.is_source {
        e.timelocks.src_claim_open(now, is_public)
    } else {
        e.timelocks.dst_claim_open(now, is_public)
    }
}

/// Whether `caller` may refund `e` at `now`.
pub open spec fn cancel_open(e: Escrow, caller: Seq<char>, now: u64) -> bool {
    if e.is_source {
        e.timelocks.src_cancel_open(now, caller != e.taker@)
    } else {
        e.timelocks.dst_cancel_open(now)
    }
}

/// A claim pays the taker on the source side and the maker on the
/// destination side; the safety deposit goes to whoever claimed.
pub open spec fn claim_plan(e: Escrow, caller: String) -> Settlement {
    Settlement {
        hashlock: e.hashlock,
        maker_id: e.maker,
        taker_id: e.taker,
        is_source: e.is_source,
        is_cancel: false,
        token_transfer: Some(
            TokenTransfer {
                token: e.asset.token(),
                receiver: if e.is_source {
                    e.taker
                } else {
                    e.maker
                },
                amount: e.amount,
            },
        ),
        deposit_receiver: caller,
        safety_deposit: e.safety_deposit,
    }
}

/// A refund returns destination funds to the taker by transfer; a source
/// refund moves no tokens (the ledger releases them on settlement).
pub open spec fn cancel_plan(e: Escrow, caller: String) -> Settlement {
    Settlement {
        hashlock: e.hashlock,
        maker_id: e.maker,
        taker_id: e.taker,
        is_source: e.is_source,
        is_cancel: true,
        token_transfer: if e.is_source {
            None
        } else {
            Some(TokenTransfer { token: e.asset.token(), receiver: e.taker, amount: e.amount })
        },
        deposit_receiver: caller,
        safety_deposit: e.safety_deposit,
    }
}

/// The escrow a signed order opens on the source side.
pub open spec fn source_escrow(o: SignedOrder, resolver: String, safety_deposit: u128, now: u64) -> Escrow {
    Escrow {
        hashlock: o.hashlock,
        maker: o.maker_id,
        taker: resolver,
        asset: Asset::Ft(o.asset_id),
        amount: o.amount,
        timelocks: Timelocks { created_at: now, delays: o.timelocks },
        safety_deposit,
        claimed: false,
        is_source: true,
        settled: false,
    }
}

/// The escrow a resolver's token transfer opens on the destination side.
pub open spec fn destination_escrow(
    hashlock: [u8; 32],
    maker_id: String,
    resolver: String,
    token: String,
    amount: u128,
    delays: TimelockDelays,
    safety_deposit: u128,
    now: u64,
) -> Escrow {
    Escrow {
        hashlock,
        maker: maker_id,
        taker: resolver,
        asset: Asset::Ft(token),
        amount,
        timelocks: Timelocks { created_at: now, delays },
        safety_deposit,
        claimed: false,
        is_source: false,
        settled: false,
    }
}

/// Everything the coordinator stores, as plain records, for a host that
/// persists state between calls.
#[derive(Debug)]
pub struct ContractSnapshot {
    pub owner_id: String,
    pub escrows: Vec<Escrow>,
    pub balances: Vec<BalanceEntry>,
    pub used_nonces: Vec<u128>,
    pub registered_keys: Vec<KeyRecord>,
}

/// Whether every outcome is a success.
pub open spec fn all_succeeded(outcomes: Seq<bool>) -> bool {
    forall|i: int| 0 <= i < outcomes.len() ==> #[trigger] outcomes[i]
}

/// Whether every dispatched transfer went through.
pub fn transfers_succeeded(outcomes: &[bool]) -> (r: bool)
    ensures
        r == all_succeeded(outcomes@),
{
    let mut i: usize = 0;
    while i < outcomes.len()
        invariant
            i <= outcomes@.len(),
            forall|j: int| 0 <= j < i ==> #[trigger] outcomes@[j],
        decreases outcomes@.len() - i,
    {
        if !outcomes[i] {
            return false;
        }
        i = i + 1;
    }
    true
}

/// What a ledger map holds locked for (a, t); zero where it has no record.
pub open spec fn ledger_locked(m: Map<(Seq<char>, Seq<char>), (u128, u128)>, a: Seq<char>, t: Seq<char>) -> nat {
    if m.contains_key((a, t)) {
        m[(a, t)].1 as nat
    } else {
        0
    }
}

/// Stored records the coordinator can be rebuilt from: keys unique in each
/// list, no balance with more locked than total, every escrow sound, and
/// every locked balance equal to the amounts of the live source escrows of
/// that maker in that token.
pub open spec fn snapshot_sound(s: ContractSnapshot) -> bool {
    let m = records_map(s.balances@, balance_key(), balance_val());
    &&& keys_unique(s.registered_keys@, key_record_key())
    &&& keys_unique(s.balances@, balance_key())
    &&& forall|i: int|
        0 <= i < s.balances@.len() ==> (#[trigger] s.balances@[i]).locked <= s.balances@[i].total
    &&& keys_unique(s.escrows@, escrow_key())
    &&& forall|i: int| 0 <= i < s.escrows@.len() ==> (#[trigger] s.escrows@[i]).sound()
    &&& forall|a: Seq<char>, t: Seq<char>| #[trigger]
        sum_of(s.escrows@, locked_weight(a, t)) == ledger_locked(m, a, t)
}

/// The coordinator's state: escrows, deposit ledger, consumed nonces and
/// registered keys.
pub struct Contract {
    owner_id: String,
    escrows: EscrowStore,
    deposits: DepositManager,
    used_nonces: Vec<u128>,
    registered_keys: KeyRegistry,
    /// The native safety deposits the coordinator holds.
    safety_held: Ghost<nat>,
}

impl Contract {
    pub closed spec fn wf(&self) -> bool {
        &&& self.escrows.wf()
        &&& self.deposits.wf()
        &&& self.registered_keys.wf()
        &&& forall|a: Seq<char>, t: Seq<char>| #[trigger]
            self.escrows.locked_sum(a, t) == self.deposits.locked_of(a, t)
        &&& self.safety_held@ == self.escrows.deposit_sum()
    }

    /// The amounts of the live source escrows of maker `a` in token `t`, summed.
    pub closed spec fn locked_in_escrows(&self, a: Seq<char>, t: Seq<char>) -> nat {
        self.escrows.locked_sum(a, t)
    }

    /// The safety deposits of the live escrows, summed.
    pub closed spec fn deposits_in_escrows(&self) -> nat {
        self.escrows.deposit_sum()
    }

    /// The native safety deposits the coordinator holds: what was attached at
    /// creation, less what confirmed settlements paid out.
    pub closed spec fn safety_held(&self) -> nat {
        self.safety_held@
    }

    /// The account that deployed the coordinator.
    pub closed spec fn owner(&self) -> String {
        self.owner_id
    }

    /// The escrows by hashlock.
    pub closed spec fn escrow_map(&self) -> Map<Seq<u8>, Escrow> {
        self.escrows@
    }

    /// The deposit ledger.
    pub closed spec fn ledger(&self) -> DepositManager {
        self.deposits
    }

    /// The consumed nonces, in order of use.
    pub closed spec fn nonces(&self) -> Seq<u128> {
        self.used_nonces@
    }

    /// The registered public keys per account.
    pub closed spec fn key_registry(&self) -> KeyRegistry {
        self.registered_keys
    }

    /// Every stored escrow sits under its own hashlock, holds a positive
    /// amount and safety deposit, and is never settled without having been
    /// claimed.
    pub proof fn lemma_stored_escrow(&self, h: Seq<u8>)
        requires
            self.wf(),
            self.escrow_map().contains_key(h),
        ensures
            self.escrow_map()[h].hashlock@ == h,
            self.escrow_map()[h].amount > 0,
            self.escrow_map()[h].safety_deposit > 0,
            self.escrow_map()[h].settled ==> self.escrow_map()[h].claimed,
    {
        self.escrows.lemma_entries(h);
    }

    /// No account ever has more locked than in total.
    pub proof fn lemma_locked_within_total(&self, a: Seq<char>, t: Seq<char>)
        requires
            self.wf(),
        ensures
            self.ledger().locked_of(a, t) <= self.ledger().total_of(a, t),
    {
        self.deposits.lemma_locked_within_total(a, t);
    }

    /// What the ledger holds locked for maker `a` in token `t` is exactly the
    /// sum of the amounts of the source escrows of `a` in `t` that are not
    /// claimed or whose settlement is still in flight.
    pub proof fn lemma_locked_matches_escrows(&self, a: Seq<char>, t: Seq<char>)
        requires
            self.wf(),
        ensures
            self.ledger().locked_of(a, t) == self.locked_in_escrows(a, t),
    {
    }

    /// The safety deposits held are exactly those of the escrows that are not
    /// claimed or whose settlement is still in flight.
    pub proof fn lemma_safety_deposits_held(&self)
        requires
            self.wf(),
        ensures
            self.safety_held() == self.deposits_in_escrows(),
    {
    }

    /// No two stored escrows share a hashlock.
    pub proof fn lemma_hashlocks_distinct(&self, h1: Seq<u8>, h2: Seq<u8>)
        requires
            self.wf(),
            self.escrow_map().contains_key(h1),
            self.escrow_map().contains_key(h2),
            h1 != h2,
        ensures
            self.escrow_map()[h1].hashlock@ != self.escrow_map()[h2].hashlock@,
    {
        self.lemma_stored_escrow(h1);
        self.lemma_stored_escrow(h2);
    }

    /// The parts that an operation on escrows alone leaves as they were.
    pub open spec fn same_books(&self, other: &Contract) -> bool {
        &&& self.owner() == other.owner()
        &&& self.nonces() == other.nonces()
        &&& self.key_registry()@ == other.key_registry()@
    }

    /// Nothing observable changed.
    pub open spec fn unchanged(&self, other: &Contract) -> bool {
        &&& self.same_books(other)
        &&& self.safety_held() == other.safety_held()
        &&& self.escrow_map() == other.escrow_map()
        &&& self.ledger()@ == other.ledger()@
    }

    /// The outcome of a claim of the escrow under `h`.
    pub open spec fn claim_result(&self, h: Seq<u8>, caller: String, now: u64) -> Result<
        Settlement,
        EscrowError,
    > {
        if !self.escrow_map().contains_key(h) {
            Err(EscrowError::NotFound)
        } else {
            let e = self.escrow_map()[h];
            if e.claimed {
                Err(EscrowError::AlreadyClaimed)
            } else if !claim_open(e, caller@, now) {
                Err(EscrowError::WrongPhase)
            } else {
                Ok(claim_plan(e, caller))
            }
        }
    }

    /// The outcome of a refund of the escrow under `h`.
    pub open spec fn cancel_result(&self, h: Seq<u8>, caller: String, now: u64) -> Result<
        Settlement,
        EscrowError,
    > {
        if !self.escrow_map().contains_key(h) {
            Err(EscrowError::NotFound)
        } else {
            let e = self.escrow_map()[h];
            if e.claimed {
                Err(EscrowError::AlreadyClaimed)
            } else if !cancel_open(e, caller@, now) {
                Err(EscrowError::WrongPhase)
            } else {
                Ok(cancel_plan(e, caller))
            }
        }
    }

    /// A claim or refund of the escrow under `h` that answered `r`: on success
    /// the escrow is marked claimed and nothing else changes; on failure
    /// nothing changes.
    pub open spec fn flagged(old: Contract, new: Contract, h: Seq<u8>, r: Result<Settlement, EscrowError>) -> bool {
        &&& old.same_books(&new)
        &&& new.safety_held() == old.safety_held()
        &&& new.ledger()@ == old.ledger()@
        &&& new.escrow_map() == (if r is Ok {
            old.escrow_map().insert(h, old.escrow_map()[h].with_flags(true, false))
        } else {
            old.escrow_map()
        })
    }

    /// The ledger after the settlement of `e` was confirmed: a source refund
    /// releases the locked amount, a source claim takes it out of both
    /// balances, a destination escrow never touched the ledger.
    pub open spec fn settled_ledger(&self, e: Escrow, is_cancel: bool) -> Map<
        (Seq<char>, Seq<char>),
        (u128, u128),
    > {
        let a = e.maker@;
        let t = e.asset.token()@;
        let l = self.ledger();
        if !e.is_source {
            l@
        } else if is_cancel {
            l.with_balance(a, t, l.total_of(a, t), sat_sub(l.locked_of(a, t), e.amount as nat))
        } else {
            l.with_balance(
                a,
                t,
                sat_sub(l.total_of(a, t), e.amount as nat),
                sat_sub(l.locked_of(a, t), e.amount as nat),
            )
        }
    }

    /// The outcome of the settlement callback for the escrow under `h`.
    pub open spec fn settle_result(&self, h: Seq<u8>) -> Result<(), EscrowError> {
        if !self.escrow_map().contains_key(h) {
            Err(EscrowError::NotFound)
        } else if !self.escrow_map()[h].in_flight() {
            Err(EscrowError::NoSettlementPending)
        } else {
            Ok(())
        }
    }

    /// What the settlement callback does: on confirmed transfers the escrow is
    /// settled and the ledger reconciled; on failed transfers the claim is
    /// reverted so that the escrow can be claimed or refunded again.
    pub open spec fn settle_post(
        old: Contract,
        new: Contract,
        h: Seq<u8>,
        is_cancel: bool,
        succeeded: bool,
        r: Result<(), EscrowError>,
    ) -> bool {
        let e = old.escrow_map()[h];
        &&& r == old.settle_result(h)
        &&& old.same_books(&new)
        &&& r is Err ==> old.unchanged(&new)
        &&& r is Ok && succeeded ==> {
            &&& new.safety_held() + e.safety_deposit == old.safety_held()
            &&& new.escrow_map() == old.escrow_map().insert(h, e.with_flags(true, true))
            &&& new.ledger()@ == old.settled_ledger(e, is_cancel)
        }
        &&& r is Ok && !succeeded ==> {
            &&& new.safety_held() == old.safety_held()
            &&& new.escrow_map() == old.escrow_map().insert(h, e.with_flags(false, false))
            &&& new.ledger()@ == old.ledger()@
        }
    }

    /// The outcome of opening a source escrow from a signed order.
    pub open spec fn initiate_result(
        &self,
        params: SignedOrder,
        signature: Seq<char>,
        public_key: Seq<u8>,
        attached_deposit: u128,
    ) -> Result<(), EscrowError> {
        if attached_deposit == 0 {
            Err(EscrowError::MissingSafetyDeposit)
        } else if params.amount == 0 {
            Err(EscrowError::InsufficientFunds)
        } else if !self.key_registry().keys_of(params.maker_id@).contains(public_key) {
            Err(EscrowError::KeyNotRegistered)
        } else {
            match base64_decoded(signature) {
                None => Err(EscrowError::BadSigFormat),
                Some(sig) => match signature_check(params, sig, public_key, self.nonces()) {
                    Err(e) => Err(e),
                    Ok(_) => if !params.timelocks.is_valid() {
                        Err(EscrowError::InvalidTimelocks)
                    } else if self.ledger().available_of(params.maker_id@, params.asset_id@)
                        < params.amount {
                        Err(EscrowError::InsufficientFunds)
                    } else if self.escrow_map().contains_key(params.hashlock@) {
                        Err(EscrowError::HashlockCollision)
                    } else {
                        Ok(())
                    },
                },
            }
        }
    }

    /// What opening a source escrow does: on success the nonce is consumed,
    /// the amount locked in the maker's ledger and the escrow stored; on
    /// failure nothing changes.
    pub open spec fn initiate_post(
        old: Contract,
        new: Contract,
        params: SignedOrder,
        signature: Seq<char>,
        public_key: Seq<u8>,
        resolver: String,
        attached_deposit: u128,
        now: u64,
        r: Result<(), EscrowError>,
    ) -> bool {
        let a = params.maker_id@;
        let t = params.asset_id@;
        &&& r == old.initiate_result(params, signature, public_key, attached_deposit)
        &&& r is Err ==> old.unchanged(&new)
        &&& r is Ok ==> {
            &&& new.owner() == old.owner()
            &&& new.key_registry()@ == old.key_registry()@
            &&& new.safety_held() == old.safety_held() + attached_deposit
            &&& new.nonces() == old.nonces().push(params.nonce)
            &&& new.ledger()@ == old.ledger().with_balance(
                a,
                t,
                old.ledger().total_of(a, t),
                (old.ledger().locked_of(a, t) + params.amount) as nat,
            )
            &&& new.escrow_map() == old.escrow_map().insert(
                params.hashlock@,
                source_escrow(params, resolver, attached_deposit, now),
            )
        }
    }

    /// The outcome of opening a destination escrow.
    pub open spec fn destination_result(
        &self,
        hashlock: [u8; 32],
        amount: u128,
        delays: TimelockDelays,
        attached_deposit: u128,
    ) -> Result<(), EscrowError> {
        if attached_deposit == 0 {
            Err(EscrowError::MissingSafetyDeposit)
        } else if amount == 0 {
            Err(EscrowError::InsufficientFunds)
        } else if !delays.is_valid() {
            Err(EscrowError::InvalidTimelocks)
        } else if self.escrow_map().contains_key(hashlock@) {
            Err(EscrowError::HashlockCollision)
        } else {
            Ok(())
        }
    }

    /// The outcome of crediting a deposit.
    pub open spec fn deposit_result(&self, account: Seq<char>, token: Seq<char>, amount: u128) -> Result<
        (),
        EscrowError,
    > {
        if self.ledger().total_of(account, token) + amount > u128::MAX {
            Err(EscrowError::AmountOverflow)
        } else {
            Ok(())
        }
    }

    /// The ledger with `amount` more in the total balance of (account, token).
    pub open spec fn credited(&self, account: Seq<char>, token: Seq<char>, amount: u128) -> Map<
        (Seq<char>, Seq<char>),
        (u128, u128),
    > {
        self.ledger().with_balance(
            account,
            token,
            (self.ledger().total_of(account, token) + amount) as nat,
            self.ledger().locked_of(account, token),
        )
    }

    pub fn new(owner_id: String) -> (r: Self)
        ensures
            r.wf(),
            r.owner() == owner_id,
            r.escrow_map() == Map::<Seq<u8>, Escrow>::empty(),
            r.ledger()@ == Map::<(Seq<char>, Seq<char>), (u128, u128)>::empty(),
            r.nonces() == Seq::<u128>::empty(),
            r.key_registry()@ == Map::<Seq<char>, Seq<Seq<u8>>>::empty(),
            r.safety_held() == 0,
    {
        Contract {
            owner_id,
            escrows: EscrowStore::new(),
            deposits: DepositManager::new(),
            used_nonces: Vec::new(),
            registered_keys: KeyRegistry::new(),
            safety_held: Ghost(0),
        }
    }

    pub fn get_owner(&self) -> (r: &String)
        ensures
            *r == self.owner(),
    {
        &self.owner_id
    }

    /// The deposit ledger, for reading.
    pub fn deposits(&self) -> (r: &DepositManager)
        ensures
            *r == self.ledger(),
    {
        &self.deposits
    }

    /// A copy of the escrow stored under `hashlock`.
    pub fn get_escrow(&self, hashlock: &[u8; 32]) -> (r: Option<Escrow>)
        requires
            self.wf(),
        ensures
            r == (if self.escrow_map().contains_key(hashlock@) {
                Some(self.escrow_map()[hashlock@])
            } else {
                None
            }),
    {
        self.escrows.get(hashlock)
    }

    /// Whether `nonce` has been consumed.
    pub fn is_nonce_used(&self, nonce: u128) -> (r: bool)
        ensures
            r == self.nonces().contains(nonce),
    {
        nonce_used(&self.used_nonces, nonce)
    }

    /// Adds to the keys of `signer` those of `public_keys` it lacks.
    pub fn register_keys(&mut self, signer: &String, public_keys: Vec<Vec<u8>>)
        requires
            old(self).wf(),
        ensures
            final(self).wf(),
            final(self).key_registry()@ == old(self).key_registry()@.insert(
                signer@,
                with_new_keys(old(self).key_registry().keys_of(signer@), keys_view(public_keys@)),
            ),
            final(self).owner() == old(self).owner(),
            final(self).nonces() == old(self).nonces(),
            final(self).escrow_map() == old(self).escrow_map(),
            final(self).ledger()@ == old(self).ledger()@,
            final(self).safety_held() == old(self).safety_held(),
    {
        self.registered_keys.register(signer, &public_keys);
    }

    /// The keys registered for `account_id`.
    pub fn get_registered_keys(&self, account_id: &String) -> (r: Vec<Vec<u8>>)
        requires
            self.wf(),
        ensures
            keys_view(r@) == self.key_registry().keys_of(account_id@),
    {
        self.registered_keys.get(account_id)
    }

    pub fn get_available_balance(&self, account_id: &String, token_id: &String) -> (r: u128)
        requires
            self.wf(),
        ensures
            r as nat == self.ledger().available_of(account_id@, token_id@),
    {
        self.deposits.get_available_balance(account_id, token_id)
    }

    /// Credits tokens that `sender_id` sent through the custodian `token_id`.
    pub fn deposit_ft(&mut self, sender_id: &String, token_id: &String, amount: u128) -> (r: Result<
        (),
        EscrowError,
    >)
        requires
            old(self).wf(),
        ensures
            final(self).wf(),
            r == old(self).deposit_result(sender_id@, token_id@, amount),
            old(self).same_books(&*final(self)),
            final(self).safety_held() == old(self).safety_held(),
            final(self).escrow_map() == old(self).escrow_map(),
            final(self).ledger()@ == (if r is Ok {
                old(self).credited(sender_id@, token_id@, amount)
            } else {
                old(self).ledger()@
            }),
    {
        let total = self.deposits.get_total_balance(sender_id, token_id);
        if total > u128::MAX - amount {
            return Err(EscrowError::AmountOverflow);
        }
        self.deposits.credit_total(sender_id, token_id, amount);
        Ok(())
    }

    /// Opens a destination escrow over `amount` tokens that the resolver
    /// `sender_id` sent through the custodian `token_id`.
    pub fn create_destination_escrow(
        &mut self,
        sender_id: &String,
        token_id: &String,
        amount: u128,
        hashlock: [u8; 32],
        maker_id: String,
        timelocks: TimelockDelays,
        attached_deposit: u128,
        now: u64,
    ) -> (r: Result<(), EscrowError>)
        requires
            old(self).wf(),
        ensures
            final(self).wf(),
            r == old(self).destination_result(hashlock, amount, timelocks, attached_deposit),
            old(self).same_books(&*final(self)),
            final(self).safety_held() == old(self).safety_held() + (if r is Ok {
                attached_deposit as nat
            } else {
                0
            }),
            final(self).ledger()@ == old(self).ledger()@,
            final(self).escrow_map() == (if r is Ok {
                old(self).escrow_map().insert(
                    hashlock@,
                    destination_escrow(
                        hashlock,
                        maker_id,
                        *sender_id,
                        *token_id,
                        amount,
                        timelocks,
                        attached_deposit,
                        now,
                    ),
                )
            } else {
                old(self).escrow_map()
            }),
    {
        if attached_deposit == 0 {
            return Err(EscrowError::MissingSafetyDeposit);
        }
        if amount == 0 {
            return Err(EscrowError::InsufficientFunds);
        }
        timelocks.validate()?;
        let escrow = Escrow {
            hashlock,
            maker: maker_id,
            taker: sender_id.clone(),
            asset: Asset::Ft(token_id.clone()),
            amount,
            timelocks: Timelocks::new(now, timelocks),
            safety_deposit: attached_deposit,
            claimed: false,
            is_source: false,
            settled: false,
        };
        let ghost created = escrow;
        let r = self.escrows.insert(escrow);
        if r.is_ok() {
            self.safety_held = Ghost(self.safety_held@ + attached_deposit as nat);
        }
        proof {
            assert forall|a: Seq<char>, t: Seq<char>| #[trigger]
                self.escrows.locked_sum(a, t) == self.deposits.locked_of(a, t) by {
                assert(old(self).escrows.locked_sum(a, t) == old(self).deposits.locked_of(a, t));
                assert(locked_weight(a, t)(created) == 0);
            }
        }
        r
    }

    /// Entry point for tokens sent through a custodian: a deposit or a
    /// destination escrow, as `msg` asks. Answers the number of tokens to
    /// hand back, which is always zero.
    pub fn ft_on_transfer(
        &mut self,
        token_id: &String,
        sender_id: &String,
        amount: u128,
        msg: FtMessage,
        attached_deposit: u128,
        now: u64,
    ) -> (r: Result<u128, EscrowError>)
        requires
            old(self).wf(),
        ensures
            final(self).wf(),
            r is Ok ==> r == Ok::<u128, EscrowError>(0),
            old(self).same_books(&*final(self)),
            final(self).safety_held() == old(self).safety_held() + (if r is Ok && msg !is Deposit {
                attached_deposit as nat
            } else {
                0
            }),
            match msg {
                FtMessage::Deposit => {
                    &&& (r is Ok <==> old(self).deposit_result(sender_id@, token_id@, amount) is Ok)
                    &&& (r is Err ==> r == Err::<u128, EscrowError>(
                        EscrowError::AmountOverflow,
                    ))
                    &&& final(self).escrow_map() == old(self).escrow_map()
                    &&& final(self).ledger()@ == (if r is Ok {
                        old(self).credited(sender_id@, token_id@, amount)
                    } else {
                        old(self).ledger()@
                    })
                },
                FtMessage::CreateDestinationEscrow { hashlock, maker_id, timelocks } => {
                    &&& (match old(self).destination_result(hashlock, amount, timelocks, attached_deposit) {
                        Ok(_) => r is Ok,
                        Err(e) => r == Err::<u128, EscrowError>(e),
                    })
                    &&& final(self).ledger()@ == old(self).ledger()@
                    &&& final(self).escrow_map() == (if r is Ok {
                        old(self).escrow_map().insert(
                            hashlock@,
                            destination_escrow(
                                hashlock,
                                maker_id,
                                *sender_id,
                                *token_id,
                                amount,
                                timelocks,
                                attached_deposit,
                                now,
                            ),
                        )
                    } else {
                        old(self).escrow_map()
                    })
                },
            },
    {
        match msg {
            FtMessage::Deposit => {
                self.deposit_ft(sender_id, token_id, amount)?;
            },
            FtMessage::CreateDestinationEscrow { hashlock, maker_id, timelocks } => {
                self.create_destination_escrow(
                    sender_id,
                    token_id,
                    amount,
                    hashlock,
                    maker_id,
                    timelocks,
                    attached_deposit,
                    now,
                )?;
            },
        }
        Ok(0)
    }

    /// Opens a source escrow from an order the maker signed: checks the
    /// safety deposit, the amount, the key, the signature and nonce (consuming the
    /// nonce), the delays, the maker's available balance and the hashlock,
    /// then locks the amount in the ledger. On any failure nothing changes.
    pub fn initiate_source_escrow(
        &mut self,
        params: SignedOrder,
        signature: &str,
        public_key: &Vec<u8>,
        resolver: &String,
        attached_deposit: u128,
        now: u64,
    ) -> (r: Result<(), EscrowError>)
        requires
            old(self).wf(),
        ensures
            final(self).wf(),
            Self::initiate_post(
                *old(self),
                *final(self),
                params,
                signature@,
                public_key@,
                *resolver,
                attached_deposit,
                now,
                r,
            ),
    {
        if attached_deposit == 0 {
            return Err(EscrowError::MissingSafetyDeposit);
        }
        if params.amount == 0 {
            return Err(EscrowError::InsufficientFunds);
        }
        if !self.registered_keys.is_registered(&params.maker_id, public_key.as_slice()) {
            return Err(EscrowError::KeyNotRegistered);
        }
        let signature_bytes = match decode_base64(signature) {
            Some(b) => b,
            None => {
                return Err(EscrowError::BadSigFormat);
            },
        };
        verify_maker_signature(
            &params,
            signature_bytes.as_slice(),
            public_key.as_slice(),
            &mut self.used_nonces,
        )?;
        let checked = self.check_source_order(&params);
        if checked.is_err() {
            let _ = self.used_nonces.pop();
            proof {
                assert(self.used_nonces@ =~= old(self).used_nonces@);
            }
            return checked;
        }
        proof {
            self.deposits.lemma_locked_within_total(params.maker_id@, params.asset_id@);
        }
        self.deposits.credit_locked(&params.maker_id, &params.asset_id, params.amount);
        let escrow = Escrow {
            hashlock: params.hashlock,
            maker: params.maker_id,
            taker: resolver.clone(),
            asset: Asset::Ft(params.asset_id),
            amount: params.amount,
            timelocks: Timelocks::new(now, params.timelocks),
            safety_deposit: attached_deposit,
            claimed: false,
            is_source: true,
            settled: false,
        };
        let _ = self.escrows.insert(escrow);
        self.safety_held = Ghost(self.safety_held@ + attached_deposit as nat);
        proof {
            assert forall|a: Seq<char>, t: Seq<char>| #[trigger]
                self.escrows.locked_sum(a, t) == self.deposits.locked_of(a, t) by {
                assert(old(self).escrows.locked_sum(a, t) == old(self).deposits.locked_of(a, t));
            }
        }
        Ok(())
    }

    /// The checks on a signed order that follow its signature.
    fn check_source_order(&self, params: &SignedOrder) -> (r: Result<(), EscrowError>)
        requires
            self.wf(),
        ensures
            r == (if !params.timelocks.is_valid() {
                Err(EscrowError::InvalidTimelocks)
            } else if self.ledger().available_of(params.maker_id@, params.asset_id@)
                < params.amount {
                Err(EscrowError::InsufficientFunds)
            } else if self.escrow_map().contains_key(params.hashlock@) {
                Err(EscrowError::HashlockCollision)
            } else {
                Ok(())
            }),
    {
        params.timelocks.validate()?;
        self.deposits.assert_available_for_escrow(&params.maker_id, &params.asset_id, params.amount)?;
        if self.escrows.contains(&params.hashlock) {
            return Err(EscrowError::HashlockCollision);
        }
        Ok(())
    }

    /// Claims the escrow under `hashlock` for `caller` at time `now`: marks it
    /// claimed and answers the transfers to dispatch and the settlement
    /// callback to chain after them.
    pub fn claim_escrow(&mut self, hashlock: &[u8; 32], caller: &String, now: u64) -> (r: Result<
        Settlement,
        EscrowError,
    >)
        requires
            old(self).wf(),
        ensures
            final(self).wf(),
            r == old(self).claim_result(hashlock@, *caller, now),
            Self::flagged(*old(self), *final(self), hashlock@, r),
    {
        let e = match self.escrows.get(hashlock) {
            Some(e) => e,
            None => {
                return Err(EscrowError::NotFound);
            },
        };
        if e.claimed {
            return Err(EscrowError::AlreadyClaimed);
        }
        let is_public_caller = !(*caller == e.taker);
        let window = if e.is_source {
            e.timelocks.assert_src_withdrawal_window(now, is_public_caller)
        } else {
            e.timelocks.assert_dst_withdrawal_window(now, is_public_caller)
        };
        window?;
        proof {
            self.escrows.lemma_entries(hashlock@);
        }
        self.escrows.set_flags(hashlock, true, false);
        proof {
            assert forall|a: Seq<char>, t: Seq<char>| #[trigger]
                self.escrows.locked_sum(a, t) == self.deposits.locked_of(a, t) by {
                assert(old(self).escrows.locked_sum(a, t) == old(self).deposits.locked_of(a, t));
            }
        }
        let receiver = if e.is_source {
            e.taker.clone()
        } else {
            e.maker.clone()
        };
        let token = e.asset.ft_token_id();
        Ok(
            Settlement {
                hashlock: e.hashlock,
                maker_id: e.maker,
                taker_id: e.taker,
                is_source: e.is_source,
                is_cancel: false,
                token_transfer: Some(TokenTransfer { token, receiver, amount: e.amount }),
                deposit_receiver: caller.clone(),
                safety_deposit: e.safety_deposit,
            },
        )
    }

    /// Claims by revealing the secret (base64): the escrow claimed is the one
    /// whose hashlock is the SHA-256 digest of the decoded secret.
    pub fn withdraw(&mut self, secret: &str, caller: &String, now: u64) -> (r: Result<
        Settlement,
        EscrowError,
    >)
        requires
            old(self).wf(),
        ensures
            final(self).wf(),
            match base64_decoded(secret@) {
                None => r == Err::<Settlement, EscrowError>(EscrowError::BadSecretFormat)
                    && old(self).unchanged(&*final(self)),
                Some(bytes) => r == old(self).claim_result(sha256_of(bytes), *caller, now)
                    && Self::flagged(*old(self), *final(self), sha256_of(bytes), r),
            },
    {
        let secret_bytes = match decode_base64(secret) {
            Some(b) => b,
            None => {
                return Err(EscrowError::BadSecretFormat);
            },
        };
        let hashlock = sha256(secret_bytes.as_slice());
        self.claim_escrow(&hashlock, caller, now)
    }

    /// Refunds the escrow under `hashlock` for `caller` at time `now`: marks
    /// it claimed and answers the transfers to dispatch and the settlement
    /// callback to chain after them.
    pub fn cancel(&mut self, hashlock: &[u8; 32], caller: &String, now: u64) -> (r: Result<
        Settlement,
        EscrowError,
    >)
        requires
            old(self).wf(),
        ensures
            final(self).wf(),
            r == old(self).cancel_result(hashlock@, *caller, now),
            Self::flagged(*old(self), *final(self), hashlock@, r),
    {
        let e = match self.escrows.get(hashlock) {
            Some(e) => e,
            None => {
                return Err(EscrowError::NotFound);
            },
        };
        if e.claimed {
            return Err(EscrowError::AlreadyClaimed);
        }
        let is_public_caller = !(*caller == e.taker);
        let window = if e.is_source {
            e.timelocks.assert_src_cancellation_window(now, is_public_caller)
        } else {
            e.timelocks.assert_dst_cancellation_window(now)
        };
        window?;
        proof {
            self.escrows.lemma_entries(hashlock@);
        }
        self.escrows.set_flags(hashlock, true, false);
        proof {
            assert forall|a: Seq<char>, t: Seq<char>| #[trigger]
                self.escrows.locked_sum(a, t) == self.deposits.locked_of(a, t) by {
                assert(old(self).escrows.locked_sum(a, t) == old(self).deposits.locked_of(a, t));
            }
        }
        let token_transfer = if e.is_source {
            None
        } else {
            Some(
                TokenTransfer {
                    token: e.asset.ft_token_id(),
                    receiver: e.taker.clone(),
                    amount: e.amount,
                },
            )
        };
        Ok(
            Settlement {
                hashlock: e.hashlock,
                maker_id: e.maker,
                taker_id: e.taker,
                is_source: e.is_source,
                is_cancel: true,
                token_transfer,
                deposit_receiver: caller.clone(),
                safety_deposit: e.safety_deposit,
            },
        )
    }

    /// The settlement callback: `succeeded` tells whether all transfers that
    /// the claim or refund dispatched went through.
    pub fn on_escrow_settled(&mut self, hashlock: &[u8; 32], is_cancel: bool, succeeded: bool) -> (r:
        Result<(), EscrowError>)
        requires
            old(self).wf(),
        ensures
            final(self).wf(),
            Self::settle_post(*old(self), *final(self), hashlock@, is_cancel, succeeded, r),
    {
        let e = match self.escrows.get(hashlock) {
            Some(e) => e,
            None => {
                return Err(EscrowError::NotFound);
            },
        };
        if !e.claimed || e.settled {
            return Err(EscrowError::NoSettlementPending);
        }
        if !succeeded {
            self.escrows.set_flags(hashlock, false, false);
            proof {
                assert forall|a: Seq<char>, t: Seq<char>| #[trigger]
                    self.escrows.locked_sum(a, t) == self.deposits.locked_of(a, t) by {
                    assert(old(self).escrows.locked_sum(a, t) == old(self).deposits.locked_of(a, t));
                }
            }
            return Ok(());
        }
        self.escrows.set_flags(hashlock, true, true);
        self.safety_held = Ghost((self.safety_held@ - e.safety_deposit) as nat);
        if e.is_source {
            let token = e.asset.ft_token_id();
            let ghost l0 = self.deposits;
            proof {
                l0.lemma_locked_within_total(e.maker@, token@);
            }
            self.deposits.debit_locked(&e.maker, &token, e.amount);
            if !is_cancel {
                self.deposits.debit_total(&e.maker, &token, e.amount);
                assert(self.deposits@ =~= l0.with_balance(
                    e.maker@,
                    token@,
                    sat_sub(l0.total_of(e.maker@, token@), e.amount as nat),
                    sat_sub(l0.locked_of(e.maker@, token@), e.amount as nat),
                ));
            }
        }
        proof {
            assert forall|a: Seq<char>, t: Seq<char>| #[trigger]
                self.escrows.locked_sum(a, t) == self.deposits.locked_of(a, t) by {
                assert(old(self).escrows.locked_sum(a, t) == old(self).deposits.locked_of(a, t));
            }
        }
        Ok(())
    }

    /// The settlement callback over the outcome of each dispatched transfer:
    /// the settlement succeeded exactly when every transfer did.
    pub fn on_transfers_settled(&mut self, hashlock: &[u8; 32], is_cancel: bool, outcomes: &[bool]) -> (r:
        Result<(), EscrowError>)
        requires
            old(self).wf(),
        ensures
            final(self).wf(),
            Self::settle_post(
                *old(self),
                *final(self),
                hashlock@,
                is_cancel,
                all_succeeded(outcomes@),
                r,
            ),
    {
        let succeeded = transfers_succeeded(outcomes);
        self.on_escrow_settled(hashlock, is_cancel, succeeded)
    }

    /// Takes `amount` of `token_id` out of the caller's available balance and
    /// answers the transfer to dispatch; its outcome comes back through
    /// `on_deposit_withdrawn`.
    pub fn withdraw_deposit(&mut self, caller: &String, token_id: &String, amount: u128) -> (r: Result<
        TokenTransfer,
        EscrowError,
    >)
        requires
            old(self).wf(),
        ensures
            final(self).wf(),
            old(self).same_books(&*final(self)),
            final(self).safety_held() == old(self).safety_held(),
            final(self).escrow_map() == old(self).escrow_map(),
            r == (if amount == 0 || old(self).ledger().available_of(caller@, token_id@) < amount {
                Err(EscrowError::InsufficientFunds)
            } else {
                Ok(TokenTransfer { token: *token_id, receiver: *caller, amount })
            }),
            final(self).ledger()@ == (if r is Ok {
                old(self).ledger().with_balance(
                    caller@,
                    token_id@,
                    (old(self).ledger().total_of(caller@, token_id@) - amount) as nat,
                    old(self).ledger().locked_of(caller@, token_id@),
                )
            } else {
                old(self).ledger()@
            }),
    {
        self.deposits.assert_available_for_withdrawal(caller, token_id, amount)?;
        proof {
            self.deposits.lemma_locked_within_total(caller@, token_id@);
        }
        self.deposits.debit_total(caller, token_id, amount);
        Ok(TokenTransfer { token: token_id.clone(), receiver: caller.clone(), amount })
    }

    /// The callback of a deposit withdrawal: where the transfer failed, the
    /// debited amount is credited back.
    pub fn on_deposit_withdrawn(
        &mut self,
        account_id: &String,
        token_id: &String,
        amount: u128,
        succeeded: bool,
    ) -> (r: Result<(), EscrowError>)
        requires
            old(self).wf(),
        ensures
            final(self).wf(),
            old(self).same_books(&*final(self)),
            final(self).safety_held() == old(self).safety_held(),
            final(self).escrow_map() == old(self).escrow_map(),
            r == (if succeeded {
                Ok(())
            } else {
                old(self).deposit_result(account_id@, token_id@, amount)
            }),
            final(self).ledger()@ == (if !succeeded && r is Ok {
                old(self).credited(account_id@, token_id@, amount)
            } else {
                old(self).ledger()@
            }),
    {
        if succeeded {
            return Ok(());
        }
        self.deposit_ft(account_id, token_id, amount)
    }

    /// The whole state as plain records; the records are always sound.
    pub fn snapshot(&self) -> (r: ContractSnapshot)
        requires
            self.wf(),
        ensures
            r.owner_id == self.owner(),
            records_map(r.escrows@, escrow_key(), escrow_val()) == self.escrow_map(),
            records_map(r.balances@, balance_key(), balance_val()) == self.ledger()@,
            r.used_nonces@ == self.nonces(),
            records_map(r.registered_keys@, key_record_key(), key_record_val())
                == self.key_registry()@,
            snapshot_sound(r),
    {
        let escrows = self.escrows.list();
        let balances = self.deposits.list();
        let registered_keys = self.registered_keys.list();
        let r = ContractSnapshot {
            owner_id: self.owner_id.clone(),
            escrows,
            balances,
            used_nonces: vstd::slice::slice_to_vec(self.used_nonces.as_slice()),
            registered_keys,
        };
        proof {
            assert forall|a: Seq<char>, t: Seq<char>| #[trigger]
                sum_of(r.escrows@, locked_weight(a, t)) == ledger_locked(
                    records_map(r.balances@, balance_key(), balance_val()),
                    a,
                    t,
                ) by {
                assert(self.escrows.locked_sum(a, t) == self.deposits.locked_of(a, t));
            }
        }
        r
    }

    /// Rebuilds the coordinator from stored records. Succeeds exactly when
    /// the records are sound: unique keys, locked within total, sound
    /// escrows, and each locked balance equal to what the live source
    /// escrows hold; fails `InconsistentState` otherwise.
    pub fn restore(snap: ContractSnapshot) -> (r: Result<Contract, EscrowError>)
        ensures
            r is Ok <==> snapshot_sound(snap),
            match r {
                Ok(c) => {
                    &&& c.wf()
                    &&& c.owner() == snap.owner_id
                    &&& c.escrow_map() == records_map(snap.escrows@, escrow_key(), escrow_val())
                    &&& c.ledger()@ == records_map(snap.balances@, balance_key(), balance_val())
                    &&& c.nonces() == snap.used_nonces@
                    &&& c.key_registry()@ == records_map(
                        snap.registered_keys@,
                        key_record_key(),
                        key_record_val(),
                    )
                },
                Err(e) => e == EscrowError::InconsistentState,
            },
    {
        let ghost g = snap;
        let ghost m = records_map(g.balances@, balance_key(), balance_val());
        let ContractSnapshot { owner_id, escrows, balances, used_nonces, registered_keys } = snap;
        let keys = match KeyRegistry::from_records(registered_keys) {
            Some(k) => k,
            None => {
                return Err(EscrowError::InconsistentState);
            },
        };
        let deposits = match DepositManager::from_entries(balances) {
            Some(d) => d,
            None => {
                return Err(EscrowError::InconsistentState);
            },
        };
        let store = match EscrowStore::from_records(escrows) {
            Some(st) => st,
            None => {
                return Err(EscrowError::InconsistentState);
            },
        };
        let bal = deposits.list();
        let mut i: usize = 0;
        while i < bal.len()
            invariant
                g == snap,
                m == records_map(g.balances@, balance_key(), balance_val()),
                i <= bal@.len(),
                store.wf(),
                forall|a: Seq<char>, t: Seq<char>| #[trigger]
                    store.locked_sum(a, t) == sum_of(g.escrows@, locked_weight(a, t)),
                deposits@ == m,
                records_map(bal@, balance_key(), balance_val()) == m,
                keys_unique(bal@, balance_key()),
                forall|j: int|
                    0 <= j < i ==> store.locked_sum((#[trigger] bal@[j]).account@, bal@[j].token@)
                        == bal@[j].locked,
            decreases bal@.len() - i,
        {
            let ghost a = bal@[i as int].account@;
            let ghost t = bal@[i as int].token@;
            proof {
                lemma_records_lookup(bal@, balance_key(), balance_val(), i as int);
                assert(m.contains_key((a, t)) && m[(a, t)].1 == bal@[i as int].locked);
                assert(store.locked_sum(a, t) == sum_of(g.escrows@, locked_weight(a, t)));
            }
            match store.locked_amount(&bal[i].account, &bal[i].token) {
                Some(v) => {
                    if v != bal[i].locked {
                        assert(ledger_locked(m, a, t) != sum_of(g.escrows@, locked_weight(a, t)));
                        assert(!snapshot_sound(g)) by {
                            if snapshot_sound(g) {
                                assert(sum_of(g.escrows@, locked_weight(a, t)) == ledger_locked(m, a, t));
                            }
                        }
                        return Err(EscrowError::InconsistentState);
                    }
                },
                None => {
                    assert(ledger_locked(m, a, t) != sum_of(g.escrows@, locked_weight(a, t)));
                    return Err(EscrowError::InconsistentState);
                },
            }
            i = i + 1;
        }
        let list = store.list();
        let mut k: usize = 0;
        while k < list.len()
            invariant
                g == snap,
                m == records_map(g.balances@, balance_key(), balance_val()),
                deposits.wf(),
                store.wf(),
                deposits@ == m,
                forall|a: Seq<char>, t: Seq<char>| #[trigger]
                    store.locked_sum(a, t) == sum_of(g.escrows@, locked_weight(a, t)),
                records_map(list@, escrow_key(), escrow_val()) == store@,
                keys_unique(list@, escrow_key()),
                forall|j: int| 0 <= j < list@.len() ==> (#[trigger] list@[j]).sound(),
                k <= list@.len(),
                forall|j: int|
                    0 <= j < k && (#[trigger] list@[j]).is_source && !list@[j].settled ==> deposits@.contains_key(
                        (list@[j].maker@, list@[j].asset.token()@),
                    ),
            decreases list@.len() - k,
        {
            let e = &list[k];
            if e.is_source && !e.settled && !deposits.has_record(&e.maker, &e.asset.ft_token_id()) {
                proof {
                    let a = e.maker@;
                    let t = e.asset.token()@;
                    lemma_records_lookup(list@, escrow_key(), escrow_val(), k as int);
                    store.lemma_locked_sum_member(e.hashlock@, a, t);
                    assert(store.locked_sum(a, t) == sum_of(g.escrows@, locked_weight(a, t)));
                    assert(ledger_locked(m, a, t) != sum_of(g.escrows@, locked_weight(a, t)));
                    assert(!snapshot_sound(g)) by {
                        if snapshot_sound(g) {
                            assert(sum_of(g.escrows@, locked_weight(a, t)) == ledger_locked(m, a, t));
                        }
                    }
                }
                return Err(EscrowError::InconsistentState);
            }
            k = k + 1;
        }
        proof {
            assert forall|a: Seq<char>, t: Seq<char>| #[trigger]
                store.locked_sum(a, t) == deposits.locked_of(a, t) by {
                if deposits@.contains_key((a, t)) {
                    lemma_records_domain(bal@, balance_key(), balance_val(), (a, t));
                    let j = choose|j: int|
                        0 <= j < bal@.len() && balance_key()(#[trigger] bal@[j]) == (a, t);
                    lemma_records_lookup(bal@, balance_key(), balance_val(), j);
                } else {
                    assert forall|h: Seq<u8>| #[trigger]
                        store@.contains_key(h) implies locked_weight(a, t)(store@[h]) == 0 by {
                        lemma_records_domain(list@, escrow_key(), escrow_val(), h);
                        let j = choose|j: int|
                            0 <= j < list@.len() && escrow_key()(#[trigger] list@[j]) == h;
                        lemma_records_lookup(list@, escrow_key(), escrow_val(), j);
                    }
                    store.lemma_locked_sum_zero(a, t);
                }
            }
            assert forall|a: Seq<char>, t: Seq<char>| #[trigger]
                sum_of(g.escrows@, locked_weight(a, t)) == ledger_locked(m, a, t) by {
                assert(store.locked_sum(a, t) == deposits.locked_of(a, t));
            }
        }
        let ghost held = store.deposit_sum();
        Ok(
            Contract {
                owner_id,
                escrows: store,
                deposits,
                used_nonces,
                registered_keys: keys,
                safety_held: Ghost(held),
            },
        )
    }
}

} // verus!
