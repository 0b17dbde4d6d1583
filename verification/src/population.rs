//! The synthetic accounts that a benchmark stores and reads back.

use crate::entropy::{draw_below, fresh_key_bytes};
use crate::layout::{
    add_account, is_aligned, lemma_region_size_aligned, lemma_region_size_monotonic, region_size,
};
use vstd::prelude::*;

verus! {

/// Balance that every synthetic account is created with.
pub const LAMPORTS: u64 = 10;

/// Under the cyclic policy, account `i` has `i % CYCLE` bytes of data.
pub const CYCLE: usize = 1000;

/// Smallest data length that the uniform policy draws.
pub const MIN_RECORD_LEN: usize = 136;

/// The uniform policy draws data lengths below this bound.
pub const MAX_RECORD_LEN: usize = 100_000;

/// An opaque, fixed-width account identifier.
#[derive(Debug, Clone, Copy, PartialEq, Eq)]
pub struct Key {
    pub bytes: [u8; 32],
}

impl View for Key {
    type V = Seq<u8>;

    open spec fn view(&self) -> Seq<u8> {
        self.bytes@
    }
}

/// The identifier whose bytes are all zero.
pub open spec fn zero_key() -> Key {
    Key { bytes: vstd::array::spec_array_fill_for_copy_type::<u8, 32>(0u8) }
}

/// The synthetic record with `data_len` bytes of data: the fixed balance
/// and the zero owner.
pub open spec fn synthetic_record(data_len: usize) -> Record {
    Record { lamports: LAMPORTS, data_len, owner: zero_key() }
}

impl Key {
    /// The identifier whose bytes are all zero.
    pub fn zero() -> (k: Key)
        ensures
            k == zero_key(),
            k@ == Seq::new(32, |i: int| 0u8),
    {
        broadcast use vstd::array::group_array_axioms;

        let k = Key { bytes: [0u8; 32] };
        assert(k@ =~= Seq::new(32, |i: int| 0u8));
        k
    }

    /// Byte-for-byte comparison.
    pub fn same(&self, other: &Key) -> (r: bool)
        ensures
            r == (*self == *other),
    {
        broadcast use vstd::array::group_array_axioms;

        let mut i: usize = 0;
        while i < 32
            invariant
                i <= 32,
                forall|j: int| 0 <= j < i ==> self.bytes[j] == other.bytes[j],
            decreases 32 - i,
        {
            if self.bytes[i] != other.bytes[i] {
                return false;
            }
            i += 1;
        }
        assert(self.bytes =~= other.bytes);
        true
    }
}

/// What is stored for an account: its balance, its data and its owner.
///
/// The data of a synthetic account is `data_len` zero bytes, so the length
/// stands for the payload.
#[derive(Debug, Clone, Copy, PartialEq, Eq)]
pub struct Record {
    pub lamports: u64,
    pub data_len: usize,
    pub owner: Key,
}

impl Record {
    /// The data payload.
    pub open spec fn data(&self) -> Seq<u8> {
        Seq::new(self.data_len as nat, |i: int| 0u8)
    }

    /// Whether the record is one that the pool generator makes.
    pub open spec fn is_synthetic(&self) -> bool {
        *self == synthetic_record(self.data_len)
    }

    /// The synthetic record with `data_len` bytes of data.
    pub fn synthetic(data_len: usize) -> (r: Record)
        ensures
            r == synthetic_record(data_len),
    {
        Record { lamports: LAMPORTS, data_len, owner: Key::zero() }
    }

    /// Field-for-field comparison.
    pub fn same(&self, other: &Record) -> (r: bool)
        ensures
            r == (*self == *other),
    {
        self.lamports == other.lamports && self.data_len == other.data_len && self.owner.same(
            &other.owner,
        )
    }
}

/// An account of the pool: an identifier and what is stored for it.
#[derive(Debug, Clone, Copy, PartialEq, Eq)]
pub struct Account {
    pub key: Key,
    pub record: Record,
}

/// How the data lengths of a pool are chosen.
#[derive(Debug, Clone, Copy, PartialEq, Eq, Structural)]
pub enum SizePolicy {
    /// Account `i` has `i % CYCLE` bytes of data.
    Cyclic,
    /// Every account has a length drawn uniformly from
    /// `MIN_RECORD_LEN .. MAX_RECORD_LEN`.
    Uniform,
}

impl SizePolicy {
    /// Whether the policy allows account `index` to have `data_len` bytes.
    pub open spec fn admits(self, index: int, data_len: int) -> bool {
        match self {
            SizePolicy::Cyclic => data_len == index % (CYCLE as int),
            SizePolicy::Uniform => MIN_RECORD_LEN <= data_len < MAX_RECORD_LEN,
        }
    }
}

/// Data length of account `i` under the cyclic policy.
pub open spec fn cyclic_len() -> spec_fn(int) -> nat {
    |i: int| (i % (CYCLE as int)) as nat
}

/// The fixed population of accounts of one benchmark run. Actions name an
/// account by its index here.
#[derive(Debug, PartialEq, Eq)]
pub struct Population {
    pub accounts: Vec<Account>,
}

impl View for Population {
    type V = Seq<Account>;

    open spec fn view(&self) -> Seq<Account> {
        self.accounts@
    }
}

impl Population {
    /// Data length of account `i`.
    pub open spec fn len_at(&self) -> spec_fn(int) -> nat {
        |i: int| self@[i].record.data_len as nat
    }

    /// Whether every account is synthetic with a length that `policy`
    /// allows at its index.
    pub open spec fn conforms(&self, policy: SizePolicy) -> bool {
        forall|i: int|
            0 <= i < self@.len() ==> (#[trigger] self@[i]).record.is_synthetic() && policy.admits(
                i,
                self@[i].record.data_len as int,
            )
    }

    /// The population that gives `keys[i]` the synthetic record of
    /// `i % CYCLE` bytes.
    pub fn cyclic(keys: Vec<Key>) -> (p: Population)
        ensures
            p@.len() == keys@.len(),
            forall|i: int| 0 <= i < keys@.len() ==> (#[trigger] p@[i]).key == keys@[i],
            forall|i: int|
                0 <= i < keys@.len() ==> (#[trigger] p@[i]).record.data_len == i % (CYCLE as int),
            p.conforms(SizePolicy::Cyclic),
    {
        let mut accounts: Vec<Account> = Vec::new();
        let mut i: usize = 0;
        while i < keys.len()
            invariant
                i <= keys@.len(),
                accounts@.len() == i,
                forall|j: int| 0 <= j < i ==> (#[trigger] accounts@[j]).key == keys@[j],
                forall|j: int|
                    0 <= j < i ==> (#[trigger] accounts@[j]).record.is_synthetic()
                        && accounts@[j].record.data_len == j % (CYCLE as int),
            decreases keys@.len() - i,
        {
            accounts.push(Account { key: keys[i], record: Record::synthetic(i % CYCLE) });
            i += 1;
        }
        Population { accounts }
    }

    /// A population of `n` accounts with freshly drawn identifiers and
    /// lengths chosen by `policy`.
    ///
    /// Nothing is promised of the identifiers: they are random, and two of
    /// them may even coincide.
    pub fn generate(n: usize, policy: SizePolicy) -> (p: Population)
        ensures
            p@.len() == n,
            p.conforms(policy),
    {
        let mut accounts: Vec<Account> = Vec::new();
        let mut i: usize = 0;
        while i < n
            invariant
                i <= n,
                accounts@.len() == i,
                forall|j: int|
                    0 <= j < i ==> (#[trigger] accounts@[j]).record.is_synthetic() && policy.admits(
                        j,
                        accounts@[j].record.data_len as int,
                    ),
            decreases n - i,
        {
            let data_len: usize = match policy {
                SizePolicy::Cyclic => i % CYCLE,
                SizePolicy::Uniform => {
                    let extra: u64 = draw_below((MAX_RECORD_LEN - MIN_RECORD_LEN) as u64);
                    MIN_RECORD_LEN + extra as usize
                },
            };
            let key = Key { bytes: fresh_key_bytes() };
            accounts.push(Account { key, record: Record::synthetic(data_len) });
            i += 1;
        }
        Population { accounts }
    }

    /// Whether no identifier occurs twice.
    pub open spec fn keys_distinct(&self) -> bool {
        forall|i: int, j: int| 0 <= i < j < self@.len() ==> self@[i].key != self@[j].key
    }

    /// Tells whether no identifier occurs twice, by holding each against
    /// every one before it: the time it takes grows with the square of
    /// the population.
    pub fn has_distinct_keys(&self) -> (distinct: bool)
        ensures
            distinct == self.keys_distinct(),
    {
        let n = self.accounts.len();
        let mut j: usize = 0;
        while j < n
            invariant
                j <= n,
                n == self@.len(),
                forall|a: int, b: int| 0 <= a < b < j ==> self@[a].key != self@[b].key,
            decreases n - j,
        {
            let mut i: usize = 0;
            while i < j
                invariant
                    i <= j < n,
                    n == self@.len(),
                    forall|a: int| 0 <= a < i ==> self@[a].key != self@[j as int].key,
                decreases j - i,
            {
                if self.accounts[i].key.same(&self.accounts[j].key) {
                    return false;
                }
                i += 1;
            }
            j += 1;
        }
        true
    }

    /// Number of accounts.
    pub fn len(&self) -> (n: usize)
        ensures
            n == self@.len(),
    {
        self.accounts.len()
    }

    /// The account at `index`, if there is one.
    pub fn get(&self, index: usize) -> (a: Option<Account>)
        ensures
            a == (if index < self@.len() {
                Some(self@[index as int])
            } else {
                None
            }),
    {
        if index < self.accounts.len() {
            Some(self.accounts[index])
        } else {
            None
        }
    }

    /// Bytes that a storage region must have to hold every account of the
    /// population once; `None` if that does not fit in 64 bits.
    pub fn region_size(&self) -> (r: Option<u64>)
        ensures
            r matches Some(v) ==> v == region_size(self@.len(), self.len_at()),
            r is None <==> region_size(self@.len(), self.len_at()) > u64::MAX,
    {
        let n = self.accounts.len();
        let mut total: u64 = 0;
        let mut i: usize = 0;
        while i < n
            invariant
                n == self@.len(),
                i <= n,
                total == region_size(i as nat, self.len_at()),
                is_aligned(total as nat),
            decreases n - i,
        {
            proof {
                lemma_region_size_aligned((i + 1) as nat, self.len_at());
                lemma_region_size_monotonic((i + 1) as nat, n as nat, self.len_at());
            }
            match add_account(total, self.accounts[i].record.data_len) {
                None => {
                    return None;
                },
                Some(next) => {
                    total = next;
                },
            }
            i += 1;
        }
        Some(total)
    }
}

/// Bytes that a storage region must have to hold `n` accounts sized by the
/// cyclic policy; `None` if that does not fit in 64 bits.
pub fn cyclic_region_size(n: usize) -> (r: Option<u64>)
    ensures
        r matches Some(v) ==> v == region_size(n as nat, cyclic_len()),
        r is None <==> region_size(n as nat, cyclic_len()) > u64::MAX,
{
    let mut total: u64 = 0;
    let mut i: usize = 0;
    while i < n
        invariant
            i <= n,
            total == region_size(i as nat, cyclic_len()),
            is_aligned(total as nat),
        decreases n - i,
    {
        proof {
            lemma_region_size_aligned((i + 1) as nat, cyclic_len());
            lemma_region_size_monotonic((i + 1) as nat, n as nat, cyclic_len());
        }
        match add_account(total, i % CYCLE) {
            None => {
                return None;
            },
            Some(next) => {
                total = next;
            },
        }
        i += 1;
    }
    Some(total)
}

} // verus!
