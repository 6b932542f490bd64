use vstd::prelude::*;

use crate::keyed::{
    keys_unique, lemma_records_absent, lemma_records_congruent, lemma_records_lookup,
    lemma_records_push, lemma_records_update, lemma_unique_prefix, records_map,
};

verus! {

/// The public keys one account has registered, in order of registration.
#[derive(Debug)]
pub struct KeyRecord {
    pub account: String,
    pub keys: Vec<Vec<u8>>,
}

pub open spec fn keys_view(v: Seq<Vec<u8>>) -> Seq<Seq<u8>> {
    v.map_values(|k: Vec<u8>| k@)
}

pub open spec fn key_record_key() -> spec_fn(KeyRecord) -> Seq<char> {
    |r: KeyRecord| r.account@
}

pub open spec fn key_record_val() -> spec_fn(KeyRecord) -> Seq<Seq<u8>> {
    |r: KeyRecord| keys_view(r.keys@)
}

/// `keys` followed by those of `added` that are not yet present, in order,
/// each once.
pub open spec fn with_new_keys(keys: Seq<Seq<u8>>, added: Seq<Seq<u8>>) -> Seq<Seq<u8>>
    decreases added.len(),
{
    if added.len() == 0 {
        keys
    } else {
        let prior = with_new_keys(keys, added.drop_last());
        if prior.contains(added.last()) {
            prior
        } else {
            prior.push(added.last())
        }
    }
}

/// Whether two byte strings are equal.
pub fn bytes_equal(a: &[u8], b: &[u8]) -> (r: bool)
    ensures
        r == (a@ == b@),
{
    if a.len() != b.len() {
        return false;
    }
    let mut i: usize = 0;
    while i < a.len()
        invariant
            i <= a@.len(),
            a@.len() == b@.len(),
            forall|j: int| 0 <= j < i ==> a@[j] == b@[j],
        decreases a@.len() - i,
    {
        if a[i] != b[i] {
            return false;
        }
        i = i + 1;
    }
    assert(a@ =~= b@);
    true
}

fn contains_bytes(keys: &Vec<Vec<u8>>, pk: &[u8]) -> (r: bool)
    ensures
        r == keys_view(keys@).contains(pk@),
{
    let mut i: usize = 0;
    while i < keys.len()
        invariant
            i <= keys@.len(),
            forall|j: int| 0 <= j < i ==> (#[trigger] keys@[j])@ != pk@,
        decreases keys@.len() - i,
    {
        if bytes_equal(keys[i].as_slice(), pk) {
            assert(keys_view(keys@)[i as int] == pk@);
            return true;
        }
        i = i + 1;
    }
    assert forall|j: int| 0 <= j < keys_view(keys@).len() implies keys_view(keys@)[j] != pk@ by {
        assert(keys_view(keys@)[j] == keys@[j]@);
    }
    false
}

fn copy_keys(v: &Vec<Vec<u8>>) -> (r: Vec<Vec<u8>>)
    ensures
        keys_view(r@) == keys_view(v@),
{
    let mut out: Vec<Vec<u8>> = Vec::new();
    let mut i: usize = 0;
    while i < v.len()
        invariant
            i <= v@.len(),
            keys_view(out@) =~= keys_view(v@).subrange(0, i as int),
        decreases v@.len() - i,
    {
        let ghost before = out@;
        out.push(vstd::slice::slice_to_vec(v[i].as_slice()));
        assert(keys_view(out@) =~= keys_view(before).push(v@[i as int]@));
        assert(keys_view(v@).subrange(0, i + 1) =~= keys_view(v@).subrange(0, i as int).push(
            v@[i as int]@,
        ));
        i = i + 1;
    }
    out
}

/// The public keys registered per account.
pub struct KeyRegistry {
    records: Vec<KeyRecord>,
}

impl View for KeyRegistry {
    type V = Map<Seq<char>, Seq<Seq<u8>>>;

    closed spec fn view(&self) -> Self::V {
        records_map(self.records@, key_record_key(), key_record_val())
    }
}

impl KeyRegistry {
    pub closed spec fn wf(&self) -> bool {
        keys_unique(self.records@, key_record_key())
    }

    /// The keys of `account`; none where it never registered one.
    pub open spec fn keys_of(&self, account: Seq<char>) -> Seq<Seq<u8>> {
        if self@.contains_key(account) {
            self@[account]
        } else {
            Seq::empty()
        }
    }

    pub fn new() -> (r: Self)
        ensures
            r.wf(),
            r@ == Map::<Seq<char>, Seq<Seq<u8>>>::empty(),
    {
        KeyRegistry { records: Vec::new() }
    }

    fn find(&self, account: &String) -> (r: Option<usize>)
        requires
            self.wf(),
        ensures
            match r {
                Some(i) => i < self.records@.len() && self.records@[i as int].account@ == account@
                    && self@.contains_key(account@) && self@[account@] == keys_view(
                    self.records@[i as int].keys@,
                ),
                None => !self@.contains_key(account@),
            },
    {
        let mut i: usize = 0;
        while i < self.records.len()
            invariant
                self.wf(),
                i <= self.records@.len(),
                forall|j: int|
                    0 <= j < i ==> key_record_key()(#[trigger] self.records@[j]) != account@,
            decreases self.records@.len() - i,
        {
            if self.records[i].account == *account {
                proof {
                    lemma_records_lookup(self.records@, key_record_key(), key_record_val(), i as int);
                }
                return Some(i);
            }
            i = i + 1;
        }
        proof {
            lemma_records_absent(self.records@, key_record_key(), key_record_val(), account@);
        }
        None
    }

    /// A copy of the keys of `account`.
    pub fn get(&self, account: &String) -> (r: Vec<Vec<u8>>)
        requires
            self.wf(),
        ensures
            keys_view(r@) == self.keys_of(account@),
    {
        match self.find(account) {
            Some(i) => copy_keys(&self.records[i].keys),
            None => {
                let r: Vec<Vec<u8>> = Vec::new();
                assert(keys_view(r@) =~= Seq::<Seq<u8>>::empty());
                r
            },
        }
    }

    /// Whether `public_key` is registered for `account`.
    pub fn is_registered(&self, account: &String, public_key: &[u8]) -> (r: bool)
        requires
            self.wf(),
        ensures
            r == self.keys_of(account@).contains(public_key@),
    {
        match self.find(account) {
            Some(i) => contains_bytes(&self.records[i].keys, public_key),
            None => false,
        }
    }

    /// Appends to the keys of `account` those of `public_keys` it lacks.
    pub fn register(&mut self, account: &String, public_keys: &Vec<Vec<u8>>)
        requires
            old(self).wf(),
        ensures
            final(self).wf(),
            final(self)@ == old(self)@.insert(
                account@,
                with_new_keys(old(self).keys_of(account@), keys_view(public_keys@)),
            ),
    {
        let found = self.find(account);
        let mut keys = match found {
            Some(i) => copy_keys(&self.records[i].keys),
            None => {
                let r: Vec<Vec<u8>> = Vec::new();
                assert(keys_view(r@) =~= Seq::<Seq<u8>>::empty());
                r
            },
        };
        let ghost start = keys_view(keys@);
        let ghost added = keys_view(public_keys@);
        assert(added.subrange(0, 0) =~= Seq::<Seq<u8>>::empty());
        let mut j: usize = 0;
        while j < public_keys.len()
            invariant
                j <= public_keys@.len(),
                added == keys_view(public_keys@),
                keys_view(keys@) == with_new_keys(start, added.subrange(0, j as int)),
            decreases public_keys@.len() - j,
        {
            let pk = public_keys[j].as_slice();
            assert(added.subrange(0, j + 1).drop_last() =~= added.subrange(0, j as int));
            assert(added.subrange(0, j + 1).last() == pk@);
            if !contains_bytes(&keys, pk) {
                let ghost before = keys_view(keys@);
                keys.push(vstd::slice::slice_to_vec(pk));
                assert(keys_view(keys@) =~= before.push(pk@));
            }
            j = j + 1;
        }
        assert(added.subrange(0, public_keys@.len() as int) =~= added);
        let rec = KeyRecord { account: account.clone(), keys };
        match found {
            Some(i) => {
                proof {
                    lemma_records_update(self.records@, key_record_key(), key_record_val(), i as int, rec);
                }
                self.records.set(i, rec);
            },
            None => {
                proof {
                    assert forall|i: int| 0 <= i < self.records@.len() implies key_record_key()(
                        #[trigger] self.records@[i],
                    ) != key_record_key()(rec) by {
                        if key_record_key()(self.records@[i]) == key_record_key()(rec) {
                            lemma_records_lookup(self.records@, key_record_key(), key_record_val(), i);
                        }
                    }
                    lemma_records_push(self.records@, key_record_key(), key_record_val(), rec);
                }
                self.records.push(rec);
            },
        }
    }

    /// Copies of all records, one per account.
    pub fn list(&self) -> (r: Vec<KeyRecord>)
        requires
            self.wf(),
        ensures
            records_map(r@, key_record_key(), key_record_val()) == self@,
            keys_unique(r@, key_record_key()),
    {
        let mut out: Vec<KeyRecord> = Vec::new();
        let mut i: usize = 0;
        while i < self.records.len()
            invariant
                i <= self.records@.len(),
                out@.len() == i,
                forall|j: int|
                    0 <= j < i ==> key_record_key()(#[trigger] out@[j]) == key_record_key()(
                        self.records@[j],
                    ) && key_record_val()(out@[j]) == key_record_val()(self.records@[j]),
            decreases self.records@.len() - i,
        {
            let rec = &self.records[i];
            out.push(KeyRecord { account: rec.account.clone(), keys: copy_keys(&rec.keys) });
            i = i + 1;
        }
        proof {
            lemma_records_congruent(
                self.records@,
                out@,
                key_record_key(),
                key_record_val(),
                key_record_key(),
                key_record_val(),
            );
        }
        out
    }

    /// A registry holding exactly `records`; `None` where two of them name
    /// the same account.
    pub fn from_records(records: Vec<KeyRecord>) -> (r: Option<KeyRegistry>)
        ensures
            match r {
                Some(reg) => reg.wf() && reg@ == records_map(records@, key_record_key(), key_record_val())
                    && keys_unique(records@, key_record_key()),
                None => !keys_unique(records@, key_record_key()),
            },
    {
        let mut i: usize = 0;
        assert(keys_unique(records@.subrange(0, 0), key_record_key()));
        while i < records.len()
            invariant
                i <= records@.len(),
                keys_unique(records@.subrange(0, i as int), key_record_key()),
            decreases records@.len() - i,
        {
            let mut j: usize = 0;
            while j < i
                invariant
                    j <= i < records@.len(),
                    forall|m: int|
                        0 <= m < j ==> key_record_key()(#[trigger] records@[m]) != key_record_key()(
                            records@[i as int],
                        ),
                decreases i - j,
            {
                if records[j].account == records[i].account {
                    return None;
                }
                j = j + 1;
            }
            proof {
                lemma_unique_prefix(records@, key_record_key(), i as int);
            }
            i = i + 1;
        }
        assert(records@.subrange(0, records@.len() as int) =~= records@);
        Some(KeyRegistry { records })
    }
}

} // verus!
