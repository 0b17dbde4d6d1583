//! Sizing of the storage regions that disk placement reserves before any
//! account is appended.
//!
//! Every stored account takes a fixed header plus its data, rounded up to the
//! alignment unit; a region must hold the sum of these.

use vstd::prelude::*;

verus! {

/// Bytes that every stored account takes besides its data.
pub const STATIC_ACCOUNT_SIZE: u64 = 136;

/// Boundary to which every stored account is aligned.
pub const ALIGNMENT: u64 = 8;

/// Whether `x` is a whole number of alignment units.
pub open spec fn is_aligned(x: nat) -> bool {
    x % 8 == 0
}

/// The least multiple of the alignment unit that is not below `x`.
pub open spec fn align_up(x: nat) -> nat {
    (((x + 7) / 8) * 8) as nat
}

/// Bytes that an account with `data_len` bytes of data takes in a region.
pub open spec fn stored_size(data_len: nat) -> nat {
    align_up(STATIC_ACCOUNT_SIZE as nat + data_len)
}

/// Bytes that the first `n` accounts take in a region, where
/// `len_at(i)` is the data length of account `i`.
pub open spec fn region_size(n: nat, len_at: spec_fn(int) -> nat) -> nat
    decreases n,
{
    if n == 0 {
        0
    } else {
        region_size((n - 1) as nat, len_at) + stored_size(len_at(n - 1))
    }
}

/// `align_up(x)` is a multiple of the alignment unit, lies in `x .. x + 8`,
/// and no smaller multiple reaches `x`.
pub proof fn lemma_align_up_is_least(x: nat)
    ensures
        is_aligned(align_up(x)),
        x <= align_up(x) < x + 8,
        forall|m: nat| #[trigger] is_aligned(m) && m >= x ==> m >= align_up(x),
{
    assert forall|m: nat| #[trigger] is_aligned(m) && m >= x implies m >= align_up(x) by {
        if m < align_up(x) {
            assert(m / 8 < (x + 7) / 8);
        }
    }
}

/// Aligning after adding to an aligned total is the same as adding the
/// aligned amount.
pub proof fn lemma_align_up_after_aligned(total: nat, amount: nat)
    requires
        is_aligned(total),
    ensures
        align_up(total + amount) == total + align_up(amount),
{
    assert((total + amount + 7) / 8 == total / 8 + (amount + 7) / 8);
}

/// A region is always a whole number of alignment units.
pub proof fn lemma_region_size_aligned(n: nat, len_at: spec_fn(int) -> nat)
    ensures
        is_aligned(region_size(n, len_at)),
    decreases n,
{
    if n > 0 {
        lemma_region_size_aligned((n - 1) as nat, len_at);
        lemma_align_up_is_least(STATIC_ACCOUNT_SIZE as nat + len_at(n - 1));
    }
}

/// More accounts never need less room.
pub proof fn lemma_region_size_monotonic(m: nat, n: nat, len_at: spec_fn(int) -> nat)
    requires
        m <= n,
    ensures
        region_size(m, len_at) <= region_size(n, len_at),
    decreases n,
{
    if m < n {
        lemma_region_size_monotonic(m, (n - 1) as nat, len_at);
    }
}

/// Every account takes at least its header, so a region of `n` accounts
/// has at least `136 * n` bytes.
pub proof fn lemma_region_size_lower_bound(n: nat, len_at: spec_fn(int) -> nat)
    ensures
        region_size(n, len_at) >= STATIC_ACCOUNT_SIZE * n,
    decreases n,
{
    if n > 0 {
        lemma_region_size_lower_bound((n - 1) as nat, len_at);
        lemma_align_up_is_least(STATIC_ACCOUNT_SIZE as nat + len_at(n - 1));
    }
}

/// Rounds `x` up to the alignment unit, or reports that the result does not
/// fit.
pub fn align(x: u64) -> (r: Option<u64>)
    ensures
        r matches Some(v) ==> v == align_up(x as nat),
        r is None <==> align_up(x as nat) > u64::MAX,
{
    match x.checked_add(ALIGNMENT - 1) {
        Some(y) => {
            let v: u64 = y & !(ALIGNMENT - 1);
            assert(v == (y / 8) * 8) by (bit_vector)
                requires
                    v == y & !7u64,
            ;
            Some(v)
        },
        None => None,
    }
}

/// Adds one account of `data_len` bytes to a running total and aligns the
/// sum, as appending the account to a region does.
pub fn add_account(total: u64, data_len: usize) -> (r: Option<u64>)
    ensures
        r matches Some(v) ==> v == align_up((total + STATIC_ACCOUNT_SIZE + data_len) as nat),
        r is None <==> align_up((total + STATIC_ACCOUNT_SIZE + data_len) as nat) > u64::MAX,
        is_aligned(total as nat) ==> align_up((total + STATIC_ACCOUNT_SIZE + data_len) as nat)
            == total + stored_size(data_len as nat),
{
    proof {
        if is_aligned(total as nat) {
            lemma_align_up_after_aligned(
                total as nat,
                STATIC_ACCOUNT_SIZE as nat + data_len as nat,
            );
        }
        lemma_align_up_is_least((total + STATIC_ACCOUNT_SIZE + data_len) as nat);
    }
    let len: u64 = data_len as u64;
    match STATIC_ACCOUNT_SIZE.checked_add(len) {
        None => None,
        Some(size) => match total.checked_add(size) {
            None => None,
            Some(sum) => align(sum),
        },
    }
}

} // verus!
