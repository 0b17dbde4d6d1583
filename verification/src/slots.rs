//! Sets of slots, kept in slot order: the slots that have been rooted, and
//! the ancestors that a read may see.

use vstd::prelude::*;

verus! {

/// An ordered set of slots.
#[derive(Debug, PartialEq, Eq)]
pub struct SlotSet {
    slots: Vec<u64>,
}

impl View for SlotSet {
    type V = Set<u64>;

    closed spec fn view(&self) -> Set<u64> {
        self.slots@.to_set()
    }
}

/// The slots that a read may see. It sees, of each account, the write
/// under the highest of them that holds one.
pub type Ancestors = SlotSet;

/// Whether `s` rises strictly from each element to the next.
pub open spec fn strictly_increasing(s: Seq<u64>) -> bool {
    forall|i: int, j: int| 0 <= i < j < s.len() ==> s[i] < s[j]
}

/// Putting `slot` where the order asks for it keeps the order and adds
/// just that slot.
proof fn lemma_insert_in_order(before: Seq<u64>, at: int, slot: u64)
    requires
        strictly_increasing(before),
        0 <= at <= before.len(),
        forall|k: int| 0 <= k < at ==> before[k] < slot,
        forall|k: int| at <= k < before.len() ==> before[k] > slot,
    ensures
        strictly_increasing(before.insert(at, slot)),
        before.insert(at, slot).to_set() == before.to_set().insert(slot),
        !before.to_set().contains(slot),
{
    let after = before.insert(at, slot);
    assert forall|i: int, j: int| 0 <= i < j < after.len() implies after[i] < after[j] by {
        if i < at {
            assert(after[i] == before[i]);
        } else if i > at {
            assert(after[i] == before[i - 1]);
        }
        if j < at {
            assert(after[j] == before[j]);
        } else if j > at {
            assert(after[j] == before[j - 1]);
        }
    }
    assert forall|s: u64| after.to_set().contains(s) <==> before.to_set().insert(slot).contains(
        s,
    ) by {
        if after.contains(s) {
            let k = choose|k: int| 0 <= k < after.len() && after[k] == s;
            if k < at {
                assert(before[k] == s);
            } else if k > at {
                assert(before[k - 1] == s);
            }
        }
        if before.contains(s) {
            let k = choose|k: int| 0 <= k < before.len() && before[k] == s;
            if k < at {
                assert(after[k] == s);
            } else {
                assert(after[k + 1] == s);
            }
        }
        if s == slot {
            assert(after[at] == s);
        }
    }
    assert(after.to_set() =~= before.to_set().insert(slot));
    if before.contains(slot) {
        let k = choose|k: int| 0 <= k < before.len() && before[k] == slot;
        assert(false);
    }
}

/// A copy of `slots` with `slot` put in at position `at`.
fn with_inserted(slots: &Vec<u64>, at: usize, slot: u64) -> (out: Vec<u64>)
    requires
        at <= slots@.len(),
    ensures
        out@ == slots@.insert(at as int, slot),
{
    let mut out: Vec<u64> = Vec::new();
    let mut k: usize = 0;
    while k < at
        invariant
            k <= at <= slots@.len(),
            out@ == slots@.take(k as int),
        decreases at - k,
    {
        out.push(slots[k]);
        k += 1;
        assert(out@ =~= slots@.take(k as int));
    }
    out.push(slot);
    while k < slots.len()
        invariant
            at <= k <= slots@.len(),
            out@ == slots@.take(k as int).insert(at as int, slot),
        decreases slots@.len() - k,
    {
        out.push(slots[k]);
        k += 1;
        assert(out@ =~= slots@.take(k as int).insert(at as int, slot));
    }
    assert(slots@.take(slots@.len() as int) =~= slots@);
    out
}

impl SlotSet {
    #[verifier::type_invariant]
    spec fn ordered(&self) -> bool {
        strictly_increasing(self.slots@)
    }

    /// The slots of the set from the lowest to the highest.
    pub closed spec fn in_order(&self) -> Seq<u64> {
        self.slots@
    }

    /// The empty set: it has no member, and no slot stands in its order.
    pub fn new() -> (a: SlotSet)
        ensures
            a@ == Set::<u64>::empty(),
            a.in_order() == Seq::<u64>::empty(),
    {
        let a = SlotSet { slots: Vec::new() };
        assert(a@ =~= Set::<u64>::empty());
        a
    }

    /// The set of the slots `0 .. count`.
    pub fn from_range(count: u64) -> (a: SlotSet)
        ensures
            forall|s: u64| a@.contains(s) <==> s < count,
            a.in_order() == Seq::new(count as nat, |i: int| i as u64),
    {
        let mut slots: Vec<u64> = Vec::new();
        let mut next: u64 = 0;
        while next < count
            invariant
                next <= count,
                slots@ == Seq::new(next as nat, |i: int| i as u64),
            decreases count - next,
        {
            slots.push(next);
            next += 1;
            assert(slots@ =~= Seq::new(next as nat, |i: int| i as u64));
        }
        let a = SlotSet { slots };
        assert forall|s: u64| a@.contains(s) <==> s < count by {
            if s < count {
                assert(a.slots@[s as int] == s);
            }
        }
        a
    }

    /// A set without slots in order has no slot.
    pub proof fn lemma_empty_in_order(&self)
        requires
            self.in_order().len() == 0,
        ensures
            forall|s: u64| !self@.contains(s),
    {
    }

    /// A set with slots in order has one.
    pub proof fn lemma_first_is_member(&self)
        requires
            self.in_order().len() > 0,
        ensures
            exists|s: u64| self@.contains(s),
    {
        assert(self@.contains(self.slots@[0]));
    }

    /// Number of slots in the set.
    pub fn len(&self) -> (n: usize)
        ensures
            n == self.in_order().len(),
    {
        self.slots.len()
    }

    /// The slots from the lowest to the highest.
    pub fn slots(&self) -> (slots: &Vec<u64>)
        ensures
            slots@ == self.in_order(),
            strictly_increasing(slots@),
            forall|s: u64| self@.contains(s) <==> slots@.contains(s),
    {
        proof {
            use_type_invariant(self);
        }
        &self.slots
    }

    /// Position of the first slot that is not below `slot`.
    fn lower_bound(&self, slot: u64) -> (at: usize)
        ensures
            at <= self.slots@.len(),
            forall|k: int| 0 <= k < at ==> self.slots@[k] < slot,
            forall|k: int| at <= k < self.slots@.len() ==> self.slots@[k] >= slot,
    {
        proof {
            use_type_invariant(self);
        }
        let mut lo: usize = 0;
        let mut hi: usize = self.slots.len();
        while lo < hi
            invariant
                lo <= hi <= self.slots@.len(),
                strictly_increasing(self.slots@),
                forall|k: int| 0 <= k < lo ==> self.slots@[k] < slot,
                forall|k: int| hi <= k < self.slots@.len() ==> self.slots@[k] >= slot,
            decreases hi - lo,
        {
            let mid: usize = lo + (hi - lo) / 2;
            if self.slots[mid] < slot {
                lo = mid + 1;
            } else {
                hi = mid;
            }
        }
        lo
    }

    /// Whether `slot` is in the set.
    pub fn contains(&self, slot: u64) -> (found: bool)
        ensures
            found == self@.contains(slot),
    {
        proof {
            use_type_invariant(self);
        }
        let at = self.lower_bound(slot);
        let found = at < self.slots.len() && self.slots[at] == slot;
        proof {
            if !found && self.slots@.contains(slot) {
                let k = choose|k: int| 0 <= k < self.slots@.len() && self.slots@[k] == slot;
                assert(k >= at);
                assert(false);
            }
        }
        found
    }

    /// Adds `slot`, and says whether it is new to the set.
    pub fn insert(&mut self, slot: u64) -> (added: bool)
        ensures
            final(self)@ == old(self)@.insert(slot),
            added == !old(self)@.contains(slot),
    {
        proof {
            use_type_invariant(&*self);
        }
        let at = self.lower_bound(slot);
        if at < self.slots.len() && self.slots[at] == slot {
            assert(self@ =~= self@.insert(slot));
            return false;
        }
        proof {
            lemma_insert_in_order(self.slots@, at as int, slot);
        }
        self.slots = with_inserted(&self.slots, at, slot);
        true
    }

    /// The set of the slots in `slots`, in whatever order and however
    /// often they are given.
    pub fn from_slots(slots: &Vec<u64>) -> (a: SlotSet)
        ensures
            forall|s: u64| a@.contains(s) <==> slots@.contains(s),
    {
        let mut a = SlotSet::new();
        let mut i: usize = 0;
        while i < slots.len()
            invariant
                i <= slots@.len(),
                forall|s: u64| a@.contains(s) <==> slots@.take(i as int).contains(s),
            decreases slots@.len() - i,
        {
            let ghost seen = a@;
            a.insert(slots[i]);
            i += 1;
            proof {
                assert forall|s: u64| a@.contains(s) <==> slots@.take(i as int).contains(s) by {
                    let shorter = slots@.take(i - 1);
                    let longer = slots@.take(i as int);
                    if longer.contains(s) {
                        let k = choose|k: int| 0 <= k < longer.len() && longer[k] == s;
                        if k < i - 1 {
                            assert(shorter[k] == s);
                        }
                    }
                    if shorter.contains(s) {
                        let k = choose|k: int| 0 <= k < shorter.len() && shorter[k] == s;
                        assert(longer[k] == s);
                    }
                    if s == slots@[i - 1] {
                        assert(longer[i - 1] == s);
                    }
                }
            }
        }
        assert(slots@.take(slots@.len() as int) =~= slots@);
        a
    }
}

} // verus!
