//! Reordering of a workload between trials.
//!
//! The shuffle goes through the positions from the last down to the second
//! and exchanges each with a position picked at or before it. Picked
//! uniformly, this gives every order the same chance; whatever is picked,
//! it gives a reordering: no action is lost and none is doubled.

use crate::entropy::draw_below;
use crate::workload::{count_reads, count_writes, Action, Workload};
use vstd::prelude::*;

verus! {

/// Why a list of picks cannot drive a shuffle.
#[derive(Debug, Clone, Copy, PartialEq, Eq, Structural)]
pub enum ShuffleError {
    /// A sequence of `n` actions takes `n - 1` picks, and an empty one none.
    WrongPickCount,
    /// The pick of this step lies behind the position it is to be
    /// exchanged with.
    PickOutOfRange { step: usize },
}

/// `s` with the elements at `i` and `j` exchanged.
pub open spec fn swapped(s: Seq<Action>, i: int, j: int) -> Seq<Action> {
    s.update(i, s[j]).update(j, s[i])
}

/// Number of picks that a sequence of `len` actions takes.
pub open spec fn picks_needed(len: nat) -> nat {
    if len == 0 {
        0
    } else {
        (len - 1) as nat
    }
}

/// Whether `picks` can drive the shuffle of `len` actions: step `t`
/// exchanges position `len - 1 - t` with `picks[t]`, which must not lie
/// behind it.
pub open spec fn picks_fit(picks: Seq<usize>, len: nat) -> bool {
    &&& picks.len() == picks_needed(len)
    &&& forall|t: int| 0 <= t < picks.len() ==> #[trigger] picks[t] <= len - 1 - t
}

/// The sequence after the steps that `picks` describes.
pub open spec fn apply_picks(s: Seq<Action>, picks: Seq<usize>) -> Seq<Action>
    decreases picks.len(),
{
    if picks.len() == 0 {
        s
    } else {
        swapped(apply_picks(s, picks.drop_last()), s.len() - picks.len(), picks.last() as int)
    }
}

/// What replacing one action does to the counts.
proof fn lemma_counts_of_update(s: Seq<Action>, i: int, a: Action)
    requires
        0 <= i < s.len(),
    ensures
        count_writes(s.update(i, a)) + (if s[i] is Write {
            1nat
        } else {
            0nat
        }) == count_writes(s) + (if a is Write {
            1nat
        } else {
            0nat
        }),
        count_reads(s.update(i, a)) + (if s[i] is Read {
            1nat
        } else {
            0nat
        }) == count_reads(s) + (if a is Read {
            1nat
        } else {
            0nat
        }),
    decreases s.len(),
{
    if i == s.len() - 1 {
        assert(s.update(i, a).drop_last() =~= s.drop_last());
    } else {
        lemma_counts_of_update(s.drop_last(), i, a);
        assert(s.update(i, a).drop_last() =~= s.drop_last().update(i, a));
    }
}

/// What replacing one action does to the multiset.
proof fn lemma_multiset_of_update(s: Seq<Action>, i: int, a: Action)
    requires
        0 <= i < s.len(),
    ensures
        s.update(i, a).to_multiset() == s.to_multiset().remove(s[i]).insert(a),
{
    broadcast use vstd::seq_lib::group_to_multiset_ensures;

    assert(s.update(i, a) =~= s.remove(i).insert(i, a));
}

/// An exchange keeps the length, the multiset and the counts.
pub proof fn lemma_swapped_is_reordering(s: Seq<Action>, i: int, j: int)
    requires
        0 <= i < s.len(),
        0 <= j < s.len(),
    ensures
        swapped(s, i, j).len() == s.len(),
        swapped(s, i, j).to_multiset() == s.to_multiset(),
        count_writes(swapped(s, i, j)) == count_writes(s),
        count_reads(swapped(s, i, j)) == count_reads(s),
{
    broadcast use vstd::seq_lib::group_to_multiset_ensures;
    broadcast use vstd::multiset::group_multiset_axioms;

    let mid = s.update(i, s[j]);
    lemma_counts_of_update(s, i, s[j]);
    lemma_counts_of_update(mid, j, s[i]);
    lemma_multiset_of_update(s, i, s[j]);
    lemma_multiset_of_update(mid, j, s[i]);
    assert(s.contains(s[i]));
    assert(s.contains(s[j]));
    if i == j {
        assert(swapped(s, i, j) =~= s);
    } else {
        assert(mid[j] == s[j]);
        assert(swapped(s, i, j).to_multiset() =~= s.to_multiset());
    }
}

/// Picks that fit give a reordering: the same actions, each as often as
/// before, and so the same numbers of reads and writes.
pub proof fn lemma_apply_picks_is_reordering(s: Seq<Action>, picks: Seq<usize>)
    requires
        picks.len() <= picks_needed(s.len()),
        forall|t: int| 0 <= t < picks.len() ==> #[trigger] picks[t] <= s.len() - 1 - t,
    ensures
        apply_picks(s, picks).len() == s.len(),
        apply_picks(s, picks).to_multiset() == s.to_multiset(),
        count_writes(apply_picks(s, picks)) == count_writes(s),
        count_reads(apply_picks(s, picks)) == count_reads(s),
    decreases picks.len(),
{
    if picks.len() > 0 {
        let before = picks.drop_last();
        lemma_apply_picks_is_reordering(s, before);
        lemma_swapped_is_reordering(
            apply_picks(s, before),
            s.len() - picks.len(),
            picks.last() as int,
        );
    }
}

/// A shuffle of a shuffle is a reordering of what was there at first.
pub proof fn lemma_reshuffle_is_reordering(s: Seq<Action>, first: Seq<usize>, second: Seq<usize>)
    requires
        picks_fit(first, s.len()),
        picks_fit(second, s.len()),
    ensures
        apply_picks(apply_picks(s, first), second).len() == s.len(),
        apply_picks(apply_picks(s, first), second).to_multiset() == s.to_multiset(),
        count_writes(apply_picks(apply_picks(s, first), second)) == count_writes(s),
        count_reads(apply_picks(apply_picks(s, first), second)) == count_reads(s),
{
    lemma_apply_picks_is_reordering(s, first);
    lemma_apply_picks_is_reordering(apply_picks(s, first), second);
}

/// A copy of `actions`.
fn copy_of(actions: &Vec<Action>) -> (out: Vec<Action>)
    ensures
        out@ == actions@,
{
    let mut out: Vec<Action> = Vec::new();
    let mut i: usize = 0;
    while i < actions.len()
        invariant
            i <= actions@.len(),
            out@ == actions@.take(i as int),
        decreases actions@.len() - i,
    {
        out.push(actions[i]);
        i += 1;
        assert(out@ =~= actions@.take(i as int));
    }
    assert(actions@.take(actions@.len() as int) =~= actions@);
    out
}

/// Exchanges the actions at `i` and `j`.
fn exchange(actions: &mut Vec<Action>, i: usize, j: usize)
    requires
        i < old(actions)@.len(),
        j < old(actions)@.len(),
    ensures
        final(actions)@ == swapped(old(actions)@, i as int, j as int),
{
    let a = actions[i];
    let b = actions[j];
    actions.set(i, b);
    actions.set(j, a);
}

/// The reordering of `actions` that `picks` describes; `actions` itself is
/// left as it is.
pub fn permuted(actions: &Vec<Action>, picks: &Vec<usize>) -> (r: Result<Vec<Action>, ShuffleError>)
    ensures
        match r {
            Ok(out) => picks_fit(picks@, actions@.len()) && out@ == apply_picks(actions@, picks@),
            Err(ShuffleError::WrongPickCount) => picks@.len() != picks_needed(actions@.len()),
            Err(ShuffleError::PickOutOfRange { step }) => {
                &&& picks@.len() == picks_needed(actions@.len())
                &&& step < picks@.len()
                &&& picks@[step as int] > actions@.len() - 1 - step
                &&& forall|t: int| 0 <= t < step ==> #[trigger] picks@[t] <= actions@.len() - 1 - t
            },
        },
{
    let n = actions.len();
    let needed: usize = if n == 0 {
        0
    } else {
        n - 1
    };
    if picks.len() != needed {
        return Err(ShuffleError::WrongPickCount);
    }
    let mut out = copy_of(actions);
    let mut t: usize = 0;
    assert(picks@.take(0).len() == 0);
    while t < needed
        invariant
            t <= needed,
            needed == picks@.len(),
            needed == picks_needed(n as nat),
            n == actions@.len(),
            out@.len() == n,
            out@ == apply_picks(actions@, picks@.take(t as int)),
            forall|k: int| 0 <= k < t ==> #[trigger] picks@[k] <= n - 1 - k,
        decreases needed - t,
    {
        let i: usize = n - 1 - t;
        let j: usize = picks[t];
        if j > i {
            return Err(ShuffleError::PickOutOfRange { step: t });
        }
        proof {
            assert(picks@.take(t + 1).drop_last() =~= picks@.take(t as int));
            assert(picks@.take(t + 1).last() == picks@[t as int]);
        }
        exchange(&mut out, i, j);
        t += 1;
    }
    assert(picks@.take(needed as int) =~= picks@);
    Ok(out)
}

/// A uniformly shuffled copy of `actions`; `actions` itself is left as it
/// is.
///
/// The order that comes back is random: each step picks its position
/// uniformly among those not behind it. What holds of every outcome is
/// that some picks that fit lead to it, and so that it is a reordering:
/// the same actions, each as often as before.
pub fn shuffled(actions: &Vec<Action>) -> (out: Vec<Action>)
    ensures
        exists|picks: Seq<usize>|
            picks_fit(picks, actions@.len()) && #[trigger] apply_picks(actions@, picks) == out@,
        out@.len() == actions@.len(),
        out@.to_multiset() == actions@.to_multiset(),
        count_writes(out@) == count_writes(actions@),
        count_reads(out@) == count_reads(actions@),
{
    let n = actions.len();
    let mut out = copy_of(actions);
    let ghost mut picks: Seq<usize> = Seq::empty();
    if n == 0 {
        assert(picks_fit(picks, 0) && apply_picks(actions@, picks) == out@);
        return out;
    }
    let mut i: usize = n - 1;
    while i > 0
        invariant
            i < n,
            n == actions@.len(),
            out@.len() == n,
            picks.len() == n - 1 - i,
            forall|t: int| 0 <= t < picks.len() ==> #[trigger] picks[t] <= n - 1 - t,
            out@ == apply_picks(actions@, picks),
        decreases i,
    {
        let j: usize = draw_below(i as u64 + 1) as usize;
        proof {
            assert(picks.push(j).drop_last() =~= picks);
            picks = picks.push(j);
        }
        exchange(&mut out, i, j);
        i -= 1;
    }
    proof {
        assert(picks_fit(picks, n as nat));
        lemma_apply_picks_is_reordering(actions@, picks);
    }
    out
}

impl Workload {
    /// The workload with its actions in a uniformly shuffled order, for
    /// another trial; `self` is left as it is.
    pub fn reshuffled(&self) -> (w: Workload)
        ensures
            w.actions@.len() == self.actions@.len(),
            w.actions@.to_multiset() == self.actions@.to_multiset(),
            count_writes(w.actions@) == count_writes(self.actions@),
            count_reads(w.actions@) == count_reads(self.actions@),
            w.reads == self.reads,
            w.writes == self.writes,
            self.wf() ==> w.wf(),
    {
        Workload { actions: shuffled(&self.actions), reads: self.reads, writes: self.writes }
    }
}

} // verus!
