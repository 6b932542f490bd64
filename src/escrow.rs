use vstd::prelude::*;

use crate::error::EscrowError;
use crate::keyed::{
    keys_unique, lemma_records_absent, lemma_records_domain, lemma_records_lookup,
    lemma_records_push, lemma_records_update, lemma_sum_member, lemma_sum_push, lemma_sum_update, lemma_sum_zero,
    lemma_unique_prefix, records_map, sum_of,
};
use crate::timelocks::{TimelockDelays, Timelocks};

verus! {

/// The asset an escrow holds: a fungible token, named by its custodian account.
#[derive(Debug)]
pub enum Asset {
    Ft(String),
}

impl Asset {
    pub open spec fn token(self) -> String {
        match self {
            Asset::Ft(id) => id,
        }
    }

    pub fn ft_token_id(&self) -> (r: String)
        ensures
            r == self.token(),
    {
        match self {
            Asset::Ft(id) => id.clone(),
        }
    }

    pub fn copy(&self) -> (r: Asset)
        ensures
            r == *self,
    {
        match self {
            Asset::Ft(id) => Asset::Ft(id.clone()),
        }
    }
}

/// One half of a swap, keyed by its hashlock.
///
/// `claimed` announces a claim or refund; `settled` records that the
/// settlement callback confirmed it. An escrow that is claimed and not
/// settled has its settlement in flight.
#[derive(Debug)]
pub struct Escrow {
    pub hashlock: [u8; 32],
    pub maker: String,
    pub taker: String,
    pub asset: Asset,
    pub amount: u128,
    pub timelocks: Timelocks,
    pub safety_deposit: u128,
    pub claimed: bool,
    pub is_source: bool,
    pub settled: bool,
}

impl Escrow {
    pub open spec fn with_flags(self, claimed: bool, settled: bool) -> Escrow {
        Escrow { claimed, settled, ..self }
    }

    /// Positive amount and safety deposit; settled only once claimed.
    pub open spec fn sound(self) -> bool {
        &&& self.amount > 0
        &&& self.safety_deposit > 0
        &&& self.settled ==> self.claimed
    }

    /// Whether a settlement callback is awaited.
    pub open spec fn in_flight(self) -> bool {
        self.claimed && !self.settled
    }

    /// Whether the escrow still holds its funds and its safety deposit: not
    /// claimed, or claimed with the settlement not yet confirmed.
    pub open spec fn live(self) -> bool {
        !self.settled
    }

    /// The same escrow with the two flags set.
    pub fn copy_with_flags(&self, claimed: bool, settled: bool) -> (r: Escrow)
        ensures
            r == self.with_flags(claimed, settled),
    {
        Escrow {
            hashlock: self.hashlock,
            maker: self.maker.clone(),
            taker: self.taker.clone(),
            asset: self.asset.copy(),
            amount: self.amount,
            timelocks: self.timelocks,
            safety_deposit: self.safety_deposit,
            claimed,
            is_source: self.is_source,
            settled,
        }
    }

    pub fn copy(&self) -> (r: Escrow)
        ensures
            r == *self,
    {
        self.copy_with_flags(self.claimed, self.settled)
    }
}

/// What a fungible-token custodian's transfer message asks for.
#[derive(Debug)]
pub enum FtMessage {
    /// Credit the tokens to the sender's deposit balance.
    Deposit,
    /// Lock the tokens in a new destination-side escrow.
    CreateDestinationEscrow { hashlock: [u8; 32], maker_id: String, timelocks: TimelockDelays },
}

/// A token transfer to be dispatched through the custodian `token`.
#[derive(Debug)]
pub struct TokenTransfer {
    pub token: String,
    pub receiver: String,
    pub amount: u128,
}

/// The transfers a claim or a refund dispatches, and the arguments of the
/// settlement callback that observes their combined outcome.
#[derive(Debug)]
pub struct Settlement {
    pub hashlock: [u8; 32],
    pub maker_id: String,
    pub taker_id: String,
    pub is_source: bool,
    pub is_cancel: bool,
    /// The token transfer, if any (a source refund stays inside the ledger).
    pub token_transfer: Option<TokenTransfer>,
    /// Who receives the safety deposit: the account that acted.
    pub deposit_receiver: String,
    pub safety_deposit: u128,
}

pub open spec fn escrow_key() -> spec_fn(Escrow) -> Seq<u8> {
    |e: Escrow| e.hashlock@
}

pub open spec fn escrow_val() -> spec_fn(Escrow) -> Escrow {
    |e: Escrow| e
}

/// What a live source escrow of maker `a` in token `t` holds locked in the ledger.
pub open spec fn locked_weight(a: Seq<char>, t: Seq<char>) -> spec_fn(Escrow) -> nat {
    |e: Escrow|
        if e.is_source && e.live() && e.maker@ == a && e.asset.token()@ == t {
            e.amount as nat
        } else {
            0
        }
}

/// The safety deposit a live escrow holds.
pub open spec fn deposit_weight() -> spec_fn(Escrow) -> nat {
    |e: Escrow|
        if e.live() {
            e.safety_deposit as nat
        } else {
            0
        }
}

/// Whether two hashes are equal, byte by byte.
pub fn same_hash(a: &[u8; 32], b: &[u8; 32]) -> (r: bool)
    ensures
        r == (a@ == b@),
{
    let mut i: usize = 0;
    while i < 32
        invariant
            i <= 32,
            a@.len() == 32 && b@.len() == 32,
            forall|j: int| 0 <= j < i ==> a@[j] == b@[j],
        decreases 32 - i,
    {
        if a[i] != b[i] {
            return false;
        }
        i = i + 1;
    }
    assert(a@ =~= b@);
    true
}

/// The escrows by hashlock; a hashlock is taken at most once.
pub struct EscrowStore {
    records: Vec<Escrow>,
}

impl View for EscrowStore {
    type V = Map<Seq<u8>, Escrow>;

    closed spec fn view(&self) -> Self::V {
        records_map(self.records@, escrow_key(), escrow_val())
    }
}

impl EscrowStore {
    /// Each stored record sits under its own hashlock, holds a positive
    /// amount and safety deposit, and none is settled without being claimed.
    pub closed spec fn wf(&self) -> bool {
        &&& keys_unique(self.records@, escrow_key())
        &&& forall|i: int| 0 <= i < self.records@.len() ==> (#[trigger] self.records@[i]).sound()
    }

    /// Every stored escrow is kept under its own hashlock and is never
    /// settled without having been claimed.
    pub proof fn lemma_entries(&self, h: Seq<u8>)
        requires
            self.wf(),
            self@.contains_key(h),
        ensures
            self@[h].hashlock@ == h,
            self@[h].sound(),
    {
        lemma_records_domain(self.records@, escrow_key(), escrow_val(), h);
        let i = choose|i: int|
            0 <= i < self.records@.len() && escrow_key()(#[trigger] self.records@[i]) == h;
        lemma_records_lookup(self.records@, escrow_key(), escrow_val(), i);
    }

    /// The amounts of the live source escrows of maker `a` in token `t`, summed.
    pub closed spec fn locked_sum(&self, a: Seq<char>, t: Seq<char>) -> nat {
        sum_of(self.records@, locked_weight(a, t))
    }

    /// The safety deposits of the live escrows, summed.
    pub closed spec fn deposit_sum(&self) -> nat {
        sum_of(self.records@, deposit_weight())
    }

    pub fn new() -> (r: Self)
        ensures
            r.wf(),
            r@ == Map::<Seq<u8>, Escrow>::empty(),
            forall|a: Seq<char>, t: Seq<char>| #[trigger] r.locked_sum(a, t) == 0,
            r.deposit_sum() == 0,
    {
        EscrowStore { records: Vec::new() }
    }

    fn find(&self, h: &[u8; 32]) -> (r: Option<usize>)
        requires
            self.wf(),
        ensures
            match r {
                Some(i) => i < self.records@.len() && self.records@[i as int].hashlock@ == h@
                    && self@.contains_key(h@) && self@[h@] == self.records@[i as int],
                None => !self@.contains_key(h@),
            },
    {
        let mut i: usize = 0;
        while i < self.records.len()
            invariant
                self.wf(),
                i <= self.records@.len(),
                forall|j: int| 0 <= j < i ==> escrow_key()(#[trigger] self.records@[j]) != h@,
            decreases self.records@.len() - i,
        {
            if same_hash(&self.records[i].hashlock, h) {
                proof {
                    lemma_records_lookup(self.records@, escrow_key(), escrow_val(), i as int);
                }
                return Some(i);
            }
            i = i + 1;
        }
        proof {
            lemma_records_absent(self.records@, escrow_key(), escrow_val(), h@);
        }
        None
    }

    /// Whether an escrow is stored under `h`.
    pub fn contains(&self, h: &[u8; 32]) -> (r: bool)
        requires
            self.wf(),
        ensures
            r == self@.contains_key(h@),
    {
        self.find(h).is_some()
    }

    /// A copy of the escrow stored under `h`.
    pub fn get(&self, h: &[u8; 32]) -> (r: Option<Escrow>)
        requires
            self.wf(),
        ensures
            r == (if self@.contains_key(h@) {
                Some(self@[h@])
            } else {
                None
            }),
    {
        match self.find(h) {
            Some(i) => Some(self.records[i].copy()),
            None => None,
        }
    }

    /// Stores a new escrow; fails `HashlockCollision` where its hashlock is taken.
    pub fn insert(&mut self, e: Escrow) -> (r: Result<(), EscrowError>)
        requires
            old(self).wf(),
            e.sound(),
        ensures
            final(self).wf(),
            r == (if old(self)@.contains_key(e.hashlock@) {
                Err(EscrowError::HashlockCollision)
            } else {
                Ok(())
            }),
            final(self)@ == (if r is Ok {
                old(self)@.insert(e.hashlock@, e)
            } else {
                old(self)@
            }),
            forall|a: Seq<char>, t: Seq<char>| #[trigger]
                final(self).locked_sum(a, t) == old(self).locked_sum(a, t) + (if r is Ok {
                    locked_weight(a, t)(e)
                } else {
                    0
                }),
            final(self).deposit_sum() == old(self).deposit_sum() + (if r is Ok {
                deposit_weight()(e)
            } else {
                0
            }),
    {
        if self.find(&e.hashlock).is_some() {
            return Err(EscrowError::HashlockCollision);
        }
        proof {
            assert forall|i: int| 0 <= i < self.records@.len() implies escrow_key()(
                #[trigger] self.records@[i],
            ) != escrow_key()(e) by {
                if escrow_key()(self.records@[i]) == escrow_key()(e) {
                    lemma_records_lookup(self.records@, escrow_key(), escrow_val(), i);
                }
            }
            lemma_records_push(self.records@, escrow_key(), escrow_val(), e);
        }
        let ghost e0 = e;
        self.records.push(e);
        proof {
            assert forall|a: Seq<char>, t: Seq<char>| #[trigger]
                self.locked_sum(a, t) == old(self).locked_sum(a, t) + locked_weight(a, t)(e0) by {
                lemma_sum_push(old(self).records@, locked_weight(a, t), e0);
            }
            lemma_sum_push(old(self).records@, deposit_weight(), e0);
            assert forall|i: int| 0 <= i < self.records@.len() implies (
            #[trigger] self.records@[i]).sound() by {
                if i < old(self).records@.len() {
                    assert(self.records@[i] == old(self).records@[i]);
                }
            }
        }
        Ok(())
    }

    /// Sets the two flags of the escrow stored under `h`.
    pub fn set_flags(&mut self, h: &[u8; 32], claimed: bool, settled: bool)
        requires
            old(self).wf(),
            old(self)@.contains_key(h@),
            settled ==> claimed,
        ensures
            final(self).wf(),
            final(self)@ == old(self)@.insert(h@, old(self)@[h@].with_flags(claimed, settled)),
            forall|a: Seq<char>, t: Seq<char>| #[trigger]
                final(self).locked_sum(a, t) + locked_weight(a, t)(old(self)@[h@])
                    == old(self).locked_sum(a, t) + locked_weight(a, t)(
                    old(self)@[h@].with_flags(claimed, settled),
                ),
            final(self).deposit_sum() + deposit_weight()(old(self)@[h@]) == old(self).deposit_sum()
                + deposit_weight()(old(self)@[h@].with_flags(claimed, settled)),
    {
        match self.find(h) {
            Some(i) => {
                let e = self.records[i].copy_with_flags(claimed, settled);
                proof {
                    lemma_records_update(self.records@, escrow_key(), escrow_val(), i as int, e);
                }
                self.records.set(i, e);
                proof {
                    assert forall|a: Seq<char>, t: Seq<char>| #[trigger]
                        self.locked_sum(a, t) + locked_weight(a, t)(old(self)@[h@])
                            == old(self).locked_sum(a, t) + locked_weight(a, t)(e) by {
                        lemma_sum_update(old(self).records@, locked_weight(a, t), i as int, e);
                    }
                    lemma_sum_update(old(self).records@, deposit_weight(), i as int, e);
                    assert forall|j: int| 0 <= j < self.records@.len() implies (
                    #[trigger] self.records@[j]).sound() by {
                        if j != i {
                            assert(self.records@[j] == old(self).records@[j]);
                        }
                    }
                }
            },
            None => {},
        }
    }


    /// A store holding exactly `records`; `None` where two share a hashlock
    /// or one is not sound.
    pub fn from_records(records: Vec<Escrow>) -> (r: Option<EscrowStore>)
        ensures
            match r {
                Some(st) => {
                    &&& st.wf()
                    &&& st@ == records_map(records@, escrow_key(), escrow_val())
                    &&& keys_unique(records@, escrow_key())
                    &&& forall|i: int| 0 <= i < records@.len() ==> (#[trigger] records@[i]).sound()
                    &&& forall|a: Seq<char>, t: Seq<char>| #[trigger]
                        st.locked_sum(a, t) == sum_of(records@, locked_weight(a, t))
                },
                None => !keys_unique(records@, escrow_key()) || exists|i: int|
                    0 <= i < records@.len() && !(#[trigger] records@[i]).sound(),
            },
    {
        let mut i: usize = 0;
        assert(keys_unique(records@.subrange(0, 0), escrow_key()));
        while i < records.len()
            invariant
                i <= records@.len(),
                keys_unique(records@.subrange(0, i as int), escrow_key()),
                forall|m: int| 0 <= m < i ==> (#[trigger] records@[m]).sound(),
            decreases records@.len() - i,
        {
            let e = &records[i];
            if e.amount == 0 || e.safety_deposit == 0 || (e.settled && !e.claimed) {
                return None;
            }
            let mut j: usize = 0;
            while j < i
                invariant
                    j <= i < records@.len(),
                    forall|m: int|
                        0 <= m < j ==> escrow_key()(#[trigger] records@[m]) != escrow_key()(
                            records@[i as int],
                        ),
                decreases i - j,
            {
                if same_hash(&records[j].hashlock, &records[i].hashlock) {
                    return None;
                }
                j = j + 1;
            }
            proof {
                lemma_unique_prefix(records@, escrow_key(), i as int);
            }
            i = i + 1;
        }
        assert(records@.subrange(0, records@.len() as int) =~= records@);
        Some(EscrowStore { records })
    }

    /// `locked_sum(a, t)` computed; `None` where it exceeds the largest amount.
    pub fn locked_amount(&self, a: &String, t: &String) -> (r: Option<u128>)
        ensures
            match r {
                Some(v) => v as nat == self.locked_sum(a@, t@),
                None => self.locked_sum(a@, t@) > u128::MAX,
            },
    {
        let ghost w = locked_weight(a@, t@);
        let mut acc: u128 = 0;
        let mut i: usize = 0;
        assert(self.records@.subrange(0, 0) =~= Seq::<Escrow>::empty());
        while i < self.records.len()
            invariant
                i <= self.records@.len(),
                w == locked_weight(a@, t@),
                acc as nat == sum_of(self.records@.subrange(0, i as int), w),
            decreases self.records@.len() - i,
        {
            let e = &self.records[i];
            assert(self.records@.subrange(0, i + 1).drop_last() =~= self.records@.subrange(0, i as int));
            if e.is_source && !e.settled && e.maker == *a && e.asset.ft_token_id() == *t {
                if acc > u128::MAX - e.amount {
                    proof {
                        self.lemma_sum_grows(w, i as int + 1);
                    }
                    return None;
                }
                acc = acc + e.amount;
            }
            i = i + 1;
        }
        assert(self.records@.subrange(0, self.records@.len() as int) =~= self.records@);
        Some(acc)
    }

    /// A prefix of the records never weighs more than all of them.
    proof fn lemma_sum_grows(&self, w: spec_fn(Escrow) -> nat, n: int)
        requires
            0 <= n <= self.records@.len(),
        ensures
            sum_of(self.records@.subrange(0, n), w) <= sum_of(self.records@, w),
        decreases self.records@.len() - n,
    {
        if n < self.records@.len() {
            self.lemma_sum_grows(w, n + 1);
            assert(self.records@.subrange(0, n + 1).drop_last() =~= self.records@.subrange(0, n));
        } else {
            assert(self.records@.subrange(0, n) =~= self.records@);
        }
    }

    /// A stored escrow's locked amount is part of the sum for its maker and token.
    pub proof fn lemma_locked_sum_member(&self, h: Seq<u8>, a: Seq<char>, t: Seq<char>)
        requires
            self.wf(),
            self@.contains_key(h),
        ensures
            locked_weight(a, t)(self@[h]) <= self.locked_sum(a, t),
    {
        lemma_records_domain(self.records@, escrow_key(), escrow_val(), h);
        let i = choose|i: int|
            0 <= i < self.records@.len() && escrow_key()(#[trigger] self.records@[i]) == h;
        lemma_records_lookup(self.records@, escrow_key(), escrow_val(), i);
        lemma_sum_member(self.records@, locked_weight(a, t), i);
    }

    /// Where no stored escrow is a live source escrow of maker `a` in token
    /// `t`, nothing is locked for them.
    pub proof fn lemma_locked_sum_zero(&self, a: Seq<char>, t: Seq<char>)
        requires
            self.wf(),
            forall|h: Seq<u8>|
                #[trigger] self@.contains_key(h) ==> locked_weight(a, t)(self@[h]) == 0,
        ensures
            self.locked_sum(a, t) == 0,
    {
        assert forall|i: int| 0 <= i < self.records@.len() implies locked_weight(a, t)(
            #[trigger] self.records@[i],
        ) == 0 by {
            lemma_records_lookup(self.records@, escrow_key(), escrow_val(), i);
            assert(self@.contains_key(self.records@[i].hashlock@));
            assert(self@[self.records@[i].hashlock@] == self.records@[i]);
        }
        lemma_sum_zero(self.records@, locked_weight(a, t));
    }

    /// Copies of all stored escrows, one per hashlock.
    pub fn list(&self) -> (r: Vec<Escrow>)
        requires
            self.wf(),
        ensures
            records_map(r@, escrow_key(), escrow_val()) == self@,
            keys_unique(r@, escrow_key()),
            forall|i: int| 0 <= i < r@.len() ==> (#[trigger] r@[i]).sound(),
            forall|a: Seq<char>, t: Seq<char>| #[trigger]
                sum_of(r@, locked_weight(a, t)) == self.locked_sum(a, t),
    {
        let mut out: Vec<Escrow> = Vec::new();
        let mut i: usize = 0;
        while i < self.records.len()
            invariant
                i <= self.records@.len(),
                out@ == self.records@.subrange(0, i as int),
            decreases self.records@.len() - i,
        {
            out.push(self.records[i].copy());
            assert(self.records@.subrange(0, i + 1) =~= self.records@.subrange(0, i as int).push(
                self.records@[i as int],
            ));
            i = i + 1;
        }
        assert(self.records@.subrange(0, self.records@.len() as int) =~= self.records@);
        out
    }
}

} // verus!
