use vstd::prelude::*;

use crate::error::EscrowError;
use crate::keyed::{
    keys_unique, lemma_records_absent, lemma_records_domain, lemma_records_lookup,
    lemma_records_push, lemma_records_update, lemma_unique_prefix, records_map,
};

verus! {

/// `a - b`, or zero where `b` exceeds `a`.
pub open spec fn sat_sub(a: nat, b: nat) -> nat {
    if a >= b {
        (a - b) as nat
    } else {
        0
    }
}

/// The balances of one account in one token.
#[derive(Clone, Debug)]
pub struct BalanceEntry {
    pub account: String,
    pub token: String,
    pub total: u128,
    pub locked: u128,
}

pub open spec fn balance_key() -> spec_fn(BalanceEntry) -> (Seq<char>, Seq<char>) {
    |e: BalanceEntry| (e.account@, e.token@)
}

pub open spec fn balance_val() -> spec_fn(BalanceEntry) -> (u128, u128) {
    |e: BalanceEntry| (e.total, e.locked)
}

/// The two-tier ledger: for each (account, token) a total balance and the
/// part of it that live escrows hold locked.
pub struct DepositManager {
    entries: Vec<BalanceEntry>,
}

impl View for DepositManager {
    /// (account, token) to (total, locked).
    type V = Map<(Seq<char>, Seq<char>), (u128, u128)>;

    closed spec fn view(&self) -> Self::V {
        records_map(self.entries@, balance_key(), balance_val())
    }
}

impl DepositManager {
    /// One record per (account, token), each with `locked <= total`.
    pub closed spec fn wf(&self) -> bool {
        &&& keys_unique(self.entries@, balance_key())
        &&& forall|i: int|
            0 <= i < self.entries@.len() ==> (#[trigger] self.entries@[i]).locked
                <= self.entries@[i].total
    }

    pub open spec fn total_of(&self, a: Seq<char>, t: Seq<char>) -> nat {
        if self@.contains_key((a, t)) {
            self@[(a, t)].0 as nat
        } else {
            0
        }
    }

    pub open spec fn locked_of(&self, a: Seq<char>, t: Seq<char>) -> nat {
        if self@.contains_key((a, t)) {
            self@[(a, t)].1 as nat
        } else {
            0
        }
    }

    pub open spec fn available_of(&self, a: Seq<char>, t: Seq<char>) -> nat {
        sat_sub(self.total_of(a, t), self.locked_of(a, t))
    }

    /// Whether `a` has a balance record in some token.
    pub open spec fn has_account(&self, a: Seq<char>) -> bool {
        exists|t: Seq<char>| #[trigger] self@.contains_key((a, t))
    }

    /// The ledger after (a, t) is set to the given balances.
    pub open spec fn with_balance(&self, a: Seq<char>, t: Seq<char>, total: nat, locked: nat) -> Map<
        (Seq<char>, Seq<char>),
        (u128, u128),
    > {
        self@.insert((a, t), (total as u128, locked as u128))
    }

    /// In a well-formed ledger no account has more locked than in total.
    pub proof fn lemma_locked_within_total(&self, a: Seq<char>, t: Seq<char>)
        requires
            self.wf(),
        ensures
            self.locked_of(a, t) <= self.total_of(a, t),
    {
        if self@.contains_key((a, t)) {
            lemma_records_domain(self.entries@, balance_key(), balance_val(), (a, t));
            let i = choose|i: int|
                0 <= i < self.entries@.len() && balance_key()(#[trigger] self.entries@[i]) == (
                a,
                t,
            );
            lemma_records_lookup(self.entries@, balance_key(), balance_val(), i);
        }
    }

    pub fn new() -> (r: Self)
        ensures
            r.wf(),
            r@ == Map::<(Seq<char>, Seq<char>), (u128, u128)>::empty(),
    {
        DepositManager { entries: Vec::new() }
    }

    fn find(&self, a: &String, t: &String) -> (r: Option<usize>)
        ensures
            match r {
                Some(i) => i < self.entries@.len() && balance_key()(self.entries@[i as int]) == (
                    a@,
                    t@,
                ),
                None => forall|i: int|
                    0 <= i < self.entries@.len() ==> balance_key()(#[trigger] self.entries@[i])
                        != (a@, t@),
            },
    {
        let mut i: usize = 0;
        while i < self.entries.len()
            invariant
                i <= self.entries@.len(),
                forall|j: int| 0 <= j < i ==> balance_key()(#[trigger] self.entries@[j]) != (a@, t@),
            decreases self.entries@.len() - i,
        {
            let e = &self.entries[i];
            if e.account == *a && e.token == *t {
                return Some(i);
            }
            i = i + 1;
        }
        None
    }

    /// Both balances of (a, t).
    fn balance(&self, a: &String, t: &String) -> (r: (u128, u128))
        requires
            self.wf(),
        ensures
            r.0 as nat == self.total_of(a@, t@),
            r.1 as nat == self.locked_of(a@, t@),
    {
        match self.find(a, t) {
            Some(i) => {
                proof {
                    lemma_records_lookup(self.entries@, balance_key(), balance_val(), i as int);
                }
                (self.entries[i].total, self.entries[i].locked)
            },
            None => {
                proof {
                    lemma_records_absent(self.entries@, balance_key(), balance_val(), (a@, t@));
                }
                (0, 0)
            },
        }
    }

    /// Sets both balances of (a, t), creating the record when there is none.
    fn set_balance(&mut self, a: &String, t: &String, total: u128, locked: u128)
        requires
            old(self).wf(),
            locked <= total,
        ensures
            final(self).wf(),
            final(self)@ == old(self)@.insert((a@, t@), (total, locked)),
    {
        let e = BalanceEntry { account: a.clone(), token: t.clone(), total, locked };
        match self.find(a, t) {
            Some(i) => {
                proof {
                    lemma_records_update(self.entries@, balance_key(), balance_val(), i as int, e);
                }
                self.entries.set(i, e);
            },
            None => {
                proof {
                    lemma_records_push(self.entries@, balance_key(), balance_val(), e);
                }
                self.entries.push(e);
            },
        }
        proof {
            assert forall|i: int| 0 <= i < self.entries@.len() implies (
            #[trigger] self.entries@[i]).locked <= self.entries@[i].total by {
                assert(old(self).entries@.len() > i ==> old(self).entries@[i].locked
                    <= old(self).entries@[i].total);
            }
        }
    }

    pub fn get_total_balance(&self, account_id: &String, token_id: &String) -> (r: u128)
        requires
            self.wf(),
        ensures
            r as nat == self.total_of(account_id@, token_id@),
    {
        self.balance(account_id, token_id).0
    }

    pub fn get_locked_balance(&self, account_id: &String, token_id: &String) -> (r: u128)
        requires
            self.wf(),
        ensures
            r as nat == self.locked_of(account_id@, token_id@),
    {
        self.balance(account_id, token_id).1
    }

    /// Total minus locked, read with saturating subtraction.
    pub fn get_available_balance(&self, account_id: &String, token_id: &String) -> (r: u128)
        requires
            self.wf(),
        ensures
            r as nat == self.available_of(account_id@, token_id@),
    {
        let (total, locked) = self.balance(account_id, token_id);
        total.saturating_sub(locked)
    }

    /// Adds `amount` to the total balance of (account, token).
    pub fn credit_total(&mut self, account_id: &String, token_id: &String, amount: u128)
        requires
            old(self).wf(),
            old(self).total_of(account_id@, token_id@) + amount <= u128::MAX,
        ensures
            final(self).wf(),
            final(self)@ == old(self).with_balance(
                account_id@,
                token_id@,
                (old(self).total_of(account_id@, token_id@) + amount) as nat,
                old(self).locked_of(account_id@, token_id@),
            ),
    {
        let (total, locked) = self.balance(account_id, token_id);
        proof {
            self.lemma_locked_within_total(account_id@, token_id@);
        }
        self.set_balance(account_id, token_id, total + amount, locked);
    }

    /// Subtracts `amount` from the total balance (saturating at zero); what stays
    /// must still cover the locked part.
    pub fn debit_total(&mut self, account_id: &String, token_id: &String, amount: u128)
        requires
            old(self).wf(),
            old(self).locked_of(account_id@, token_id@) <= sat_sub(
                old(self).total_of(account_id@, token_id@),
                amount as nat,
            ),
        ensures
            final(self).wf(),
            final(self)@ == old(self).with_balance(
                account_id@,
                token_id@,
                sat_sub(old(self).total_of(account_id@, token_id@), amount as nat),
                old(self).locked_of(account_id@, token_id@),
            ),
    {
        let (total, locked) = self.balance(account_id, token_id);
        self.set_balance(account_id, token_id, total.saturating_sub(amount), locked);
    }

    /// Locks `amount` more of the total balance.
    pub fn credit_locked(&mut self, account_id: &String, token_id: &String, amount: u128)
        requires
            old(self).wf(),
            old(self).locked_of(account_id@, token_id@) + amount <= old(self).total_of(
                account_id@,
                token_id@,
            ),
        ensures
            final(self).wf(),
            final(self)@ == old(self).with_balance(
                account_id@,
                token_id@,
                old(self).total_of(account_id@, token_id@),
                (old(self).locked_of(account_id@, token_id@) + amount) as nat,
            ),
    {
        let (total, locked) = self.balance(account_id, token_id);
        self.set_balance(account_id, token_id, total, locked + amount);
    }

    /// Releases `amount` of the locked balance (saturating at zero).
    pub fn debit_locked(&mut self, account_id: &String, token_id: &String, amount: u128)
        requires
            old(self).wf(),
        ensures
            final(self).wf(),
            final(self)@ == old(self).with_balance(
                account_id@,
                token_id@,
                old(self).total_of(account_id@, token_id@),
                sat_sub(old(self).locked_of(account_id@, token_id@), amount as nat),
            ),
    {
        let (total, locked) = self.balance(account_id, token_id);
        proof {
            self.lemma_locked_within_total(account_id@, token_id@);
        }
        self.set_balance(account_id, token_id, total, locked.saturating_sub(amount));
    }

    /// Fails `InsufficientFunds` unless `amount` is available.
    pub fn assert_available_for_escrow(&self, account_id: &String, token_id: &String, amount: u128)
        -> (r: Result<(), EscrowError>)
        requires
            self.wf(),
        ensures
            r == (if self.available_of(account_id@, token_id@) >= amount {
                Ok(())
            } else {
                Err(EscrowError::InsufficientFunds)
            }),
    {
        let available = self.get_available_balance(account_id, token_id);
        if available < amount {
            return Err(EscrowError::InsufficientFunds);
        }
        Ok(())
    }

    /// Fails `InsufficientFunds` unless `amount` is positive and available.
    pub fn assert_available_for_withdrawal(
        &self,
        account_id: &String,
        token_id: &String,
        amount: u128,
    ) -> (r: Result<(), EscrowError>)
        requires
            self.wf(),
        ensures
            r == (if amount > 0 && self.available_of(account_id@, token_id@) >= amount {
                Ok(())
            } else {
                Err(EscrowError::InsufficientFunds)
            }),
    {
        let available = self.get_available_balance(account_id, token_id);
        if amount == 0 || available < amount {
            return Err(EscrowError::InsufficientFunds);
        }
        Ok(())
    }

    /// The tokens in which `account_id` has a balance record, with their totals.
    pub fn get_all_user_deposits(&self, account_id: &String) -> (r: Vec<(String, u128)>)
        requires
            self.wf(),
        ensures
            forall|i: int|
                0 <= i < r@.len() ==> {
                    &&& self@.contains_key((account_id@, (#[trigger] r@[i]).0@))
                    &&& self@[(account_id@, r@[i].0@)].0 == r@[i].1
                },
            forall|t: Seq<char>|
                #[trigger] self@.contains_key((account_id@, t)) ==> exists|i: int|
                    0 <= i < r@.len() && (#[trigger] r@[i]).0@ == t,
    {
        let mut out: Vec<(String, u128)> = Vec::new();
        let mut i: usize = 0;
        while i < self.entries.len()
            invariant
                self.wf(),
                i <= self.entries@.len(),
                forall|k: int|
                    0 <= k < out@.len() ==> {
                        &&& self@.contains_key((account_id@, (#[trigger] out@[k]).0@))
                        &&& self@[(account_id@, out@[k].0@)].0 == out@[k].1
                    },
                forall|j: int|
                    0 <= j < i && (#[trigger] self.entries@[j]).account@ == account_id@ ==> exists|
                        k: int,
                    | 0 <= k < out@.len() && (#[trigger] out@[k]).0@ == self.entries@[j].token@,
            decreases self.entries@.len() - i,
        {
            let e = &self.entries[i];
            let ghost before = out@;
            if e.account == *account_id {
                proof {
                    lemma_records_lookup(self.entries@, balance_key(), balance_val(), i as int);
                }
                out.push((e.token.clone(), e.total));
                assert(out@[out@.len() - 1].0@ == self.entries@[i as int].token@);
            }
            proof {
                assert forall|k: int|
                    0 <= k < out@.len() implies {
                    &&& self@.contains_key((account_id@, (#[trigger] out@[k]).0@))
                    &&& self@[(account_id@, out@[k].0@)].0 == out@[k].1
                } by {
                    if k < before.len() {
                        assert(out@[k] == before[k]);
                    }
                }
                assert forall|j: int|
                    0 <= j <= i && (#[trigger] self.entries@[j]).account@ == account_id@ implies exists|
                    k: int,
                | 0 <= k < out@.len() && (#[trigger] out@[k]).0@ == self.entries@[j].token@ by {
                    if j < i {
                        let k = choose|k: int|
                            0 <= k < before.len() && (#[trigger] before[k]).0@
                                == self.entries@[j].token@;
                        assert(out@[k] == before[k]);
                    } else {
                        assert(out@[out@.len() - 1].0@ == self.entries@[j].token@);
                    }
                }
            }
            i = i + 1;
        }
        proof {
            assert forall|t: Seq<char>| #[trigger] self@.contains_key((account_id@, t)) implies exists|
                k: int,
            | 0 <= k < out@.len() && (#[trigger] out@[k]).0@ == t by {
                lemma_records_domain(self.entries@, balance_key(), balance_val(), (account_id@, t));
                let j = choose|j: int|
                    0 <= j < self.entries@.len() && balance_key()(#[trigger] self.entries@[j]) == (
                    account_id@,
                    t,
                );
                assert(self.entries@[j].account@ == account_id@);
            }
        }
        out
    }

    /// Every account with at least one balance record, each once.
    pub fn get_all_users_with_deposits(&self) -> (r: Vec<String>)
        requires
            self.wf(),
        ensures
            forall|i: int| 0 <= i < r@.len() ==> self.has_account((#[trigger] r@[i])@),
            forall|a: Seq<char>, t: Seq<char>|
                #[trigger] self@.contains_key((a, t)) ==> exists|i: int|
                    0 <= i < r@.len() && (#[trigger] r@[i])@ == a,
            forall|i: int, j: int| 0 <= i < j < r@.len() ==> r@[i]@ != r@[j]@,
    {
        let mut out: Vec<String> = Vec::new();
        let mut i: usize = 0;
        while i < self.entries.len()
            invariant
                self.wf(),
                i <= self.entries@.len(),
                forall|k: int| 0 <= k < out@.len() ==> self.has_account((#[trigger] out@[k])@),
                forall|j: int|
                    0 <= j < i ==> exists|k: int|
                        0 <= k < out@.len() && (#[trigger] out@[k])@ == (
                        #[trigger] self.entries@[j]).account@,
                forall|k: int, m: int| 0 <= k < m < out@.len() ==> out@[k]@ != out@[m]@,
            decreases self.entries@.len() - i,
        {
            let e = &self.entries[i];
            let mut seen = false;
            let mut k: usize = 0;
            while k < out.len()
                invariant
                    k <= out@.len(),
                    seen ==> exists|m: int| 0 <= m < out@.len() && (#[trigger] out@[m])@ == e.account@,
                    !seen ==> forall|m: int| 0 <= m < k ==> (#[trigger] out@[m])@ != e.account@,
                decreases out@.len() - k,
            {
                if out[k] == e.account {
                    seen = true;
                }
                k = k + 1;
            }
            let ghost before = out@;
            proof {
                lemma_records_lookup(self.entries@, balance_key(), balance_val(), i as int);
            }
            if !seen {
                out.push(e.account.clone());
                assert(self@.contains_key((out@[out@.len() - 1]@, e.token@)));
                assert(out@[out@.len() - 1]@ == self.entries@[i as int].account@);
            }
            proof {
                assert forall|k: int| 0 <= k < out@.len() implies self.has_account(
                    (#[trigger] out@[k])@,
                ) by {
                    if k < before.len() {
                        assert(out@[k] == before[k]);
                    } else {
                        assert(self@.contains_key((out@[k]@, e.token@)));
                    }
                }
                assert forall|j: int| 0 <= j <= i implies exists|k: int|
                    0 <= k < out@.len() && (#[trigger] out@[k])@ == (
                    #[trigger] self.entries@[j]).account@ by {
                    if j < i {
                        let k = choose|k: int|
                            0 <= k < before.len() && (#[trigger] before[k])@ == self.entries@[j].account@;
                        assert(out@[k] == before[k]);
                    } else if seen {
                        let m = choose|m: int| 0 <= m < out@.len() && (#[trigger] out@[m])@ == e.account@;
                        assert(out@[m]@ == self.entries@[j].account@);
                    } else {
                        assert(out@[out@.len() - 1]@ == self.entries@[j].account@);
                    }
                }
                assert forall|k: int, m: int| 0 <= k < m < out@.len() implies out@[k]@ != out@[m]@ by {
                    if m < before.len() {
                        assert(out@[k] == before[k] && out@[m] == before[m]);
                    } else {
                        assert(out@[k] == before[k]);
                    }
                }
            }
            i = i + 1;
        }
        proof {
            assert forall|a: Seq<char>, t: Seq<char>| #[trigger] self@.contains_key((a, t)) implies exists|
                k: int,
            | 0 <= k < out@.len() && (#[trigger] out@[k])@ == a by {
                lemma_records_domain(self.entries@, balance_key(), balance_val(), (a, t));
                let j = choose|j: int|
                    0 <= j < self.entries@.len() && balance_key()(#[trigger] self.entries@[j]) == (
                    a,
                    t,
                );
                assert(self.entries@[j].account@ == a);
            }
        }
        out
    }
    /// Copies of all balance records, one per (account, token).
    pub fn list(&self) -> (r: Vec<BalanceEntry>)
        requires
            self.wf(),
        ensures
            records_map(r@, balance_key(), balance_val()) == self@,
            keys_unique(r@, balance_key()),
            forall|i: int| 0 <= i < r@.len() ==> (#[trigger] r@[i]).locked <= r@[i].total,
    {
        let mut out: Vec<BalanceEntry> = Vec::new();
        let mut i: usize = 0;
        while i < self.entries.len()
            invariant
                i <= self.entries@.len(),
                out@ == self.entries@.subrange(0, i as int),
            decreases self.entries@.len() - i,
        {
            let e = &self.entries[i];
            out.push(BalanceEntry { account: e.account.clone(), token: e.token.clone(), total: e.total, locked: e.locked });
            assert(self.entries@.subrange(0, i + 1) =~= self.entries@.subrange(0, i as int).push(
                self.entries@[i as int],
            ));
            i = i + 1;
        }
        assert(self.entries@.subrange(0, self.entries@.len() as int) =~= self.entries@);
        out
    }
    /// Whether (account, token) has a balance record.
    pub fn has_record(&self, account_id: &String, token_id: &String) -> (r: bool)
        requires
            self.wf(),
        ensures
            r == self@.contains_key((account_id@, token_id@)),
    {
        match self.find(account_id, token_id) {
            Some(i) => {
                proof {
                    lemma_records_lookup(self.entries@, balance_key(), balance_val(), i as int);
                }
                true
            },
            None => {
                proof {
                    lemma_records_absent(self.entries@, balance_key(), balance_val(), (account_id@, token_id@));
                }
                false
            },
        }
    }

    /// A ledger holding exactly `entries`; `None` where two of them share
    /// (account, token) or one has more locked than in total.
    pub fn from_entries(entries: Vec<BalanceEntry>) -> (r: Option<DepositManager>)
        ensures
            match r {
                Some(d) => {
                    &&& d.wf()
                    &&& d@ == records_map(entries@, balance_key(), balance_val())
                    &&& keys_unique(entries@, balance_key())
                    &&& forall|i: int|
                        0 <= i < entries@.len() ==> (#[trigger] entries@[i]).locked <= entries@[i].total
                },
                None => !keys_unique(entries@, balance_key()) || exists|i: int|
                    0 <= i < entries@.len() && (#[trigger] entries@[i]).locked > entries@[i].total,
            },
    {
        let mut i: usize = 0;
        assert(keys_unique(entries@.subrange(0, 0), balance_key()));
        while i < entries.len()
            invariant
                i <= entries@.len(),
                keys_unique(entries@.subrange(0, i as int), balance_key()),
                forall|m: int| 0 <= m < i ==> (#[trigger] entries@[m]).locked <= entries@[m].total,
            decreases entries@.len() - i,
        {
            if entries[i].locked > entries[i].total {
                return None;
            }
            let mut j: usize = 0;
            while j < i
                invariant
                    j <= i < entries@.len(),
                    forall|m: int|
                        0 <= m < j ==> balance_key()(#[trigger] entries@[m]) != balance_key()(
                            entries@[i as int],
                        ),
                decreases i - j,
            {
                if entries[j].account == entries[i].account && entries[j].token == entries[i].token {
                    return None;
                }
                j = j + 1;
            }
            proof {
                lemma_unique_prefix(entries@, balance_key(), i as int);
            }
            i = i + 1;
        }
        assert(entries@.subrange(0, entries@.len() as int) =~= entries@);
        Some(DepositManager { entries })
    }
}

impl Default for DepositManager {
    fn default() -> (r: Self)
        ensures
            r.wf(),
            r@ == Map::<(Seq<char>, Seq<char>), (u128, u128)>::empty(),
    {
        Self::new()
    }
}

} // verus!
