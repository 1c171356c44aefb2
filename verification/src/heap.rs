//! A binary min-heap of timer deadlines.

use vstd::multiset::Multiset;
use vstd::prelude::*;
use vstd::seq_lib::group_to_multiset_ensures;

verus! {

/// A deadline recorded for the timer that occupied slot `index` under `generation`.
#[derive(Debug, Clone, Copy)]
pub struct Deadline {
    pub tick: u64,
    pub index: usize,
    pub generation: u64,
}

/// Index of the parent of heap position `i`.
spec fn parent(i: int) -> int {
    (i - 1) / 2
}

/// Every item other than the one at `hole` is no earlier than its parent.
spec fn ordered_except(s: Seq<Deadline>, hole: int) -> bool {
    forall|i: int|
        #![trigger s[i]]
        0 < i < s.len() && i != hole ==> s[parent(i)].tick <= s[i].tick
}

/// Every item is no earlier than its parent.
spec fn ordered(s: Seq<Deadline>) -> bool {
    ordered_except(s, -1)
}

proof fn lemma_root_is_least(s: Seq<Deadline>, i: int)
    requires
        ordered(s),
        0 <= i < s.len(),
    ensures
        s[0].tick <= s[i].tick,
    decreases i,
{
    if i > 0 {
        lemma_root_is_least(s, parent(i));
        assert(s[parent(i)].tick <= s[i].tick);
    }
}

proof fn lemma_swap_keeps_items(s: Seq<Deadline>, i: int, j: int)
    requires
        0 <= i < s.len(),
        0 <= j < s.len(),
    ensures
        s.update(i, s[j]).update(j, s[i]).to_multiset() == s.to_multiset(),
{
    broadcast use group_to_multiset_ensures;

    let a = s.update(i, s[j]);
    assert(s.to_multiset().contains(s[i]));
    if i != j {
        assert(a.update(j, s[i]).to_multiset() =~= s.to_multiset());
    } else {
        assert(a.update(j, s[i]) =~= s);
    }
}

/// A min-heap of deadlines ordered by tick.
pub struct DeadlineHeap {
    items: Vec<Deadline>,
}

impl DeadlineHeap {
    /// The deadlines held, with multiplicity.
    pub closed spec fn view(&self) -> Multiset<Deadline> {
        self.items@.to_multiset()
    }

    /// No item is earlier than its parent.
    pub closed spec fn wf(&self) -> bool {
        ordered(self.items@)
    }

    /// The deadline at the root, where there is any.
    pub closed spec fn first(&self) -> Deadline {
        self.items@[0]
    }

    pub fn new() -> (heap: Self)
        ensures
            heap.wf(),
            heap@ == Multiset::<Deadline>::empty(),
    {
        broadcast use group_to_multiset_ensures;

        let heap = DeadlineHeap { items: Vec::new() };
        assert(heap.items@.to_multiset().len() == 0);
        heap
    }

    /// A deadline with the least tick, if there is any.
    pub fn peek(&self) -> (top: Option<Deadline>)
        requires
            self.wf(),
        ensures
            match top {
                Some(d) => {
                    &&& d == self.first()
                    &&& self@.contains(d)
                    &&& forall|x: Deadline| #[trigger] self@.contains(x) ==> d.tick <= x.tick
                },
                None => self@ == Multiset::<Deadline>::empty(),
            },
    {
        broadcast use group_to_multiset_ensures;

        if self.items.len() == 0 {
            assert(self.items@.to_multiset().len() == 0);
            None
        } else {
            assert forall|x: Deadline| #[trigger] self@.contains(x) implies self.items@[0].tick
                <= x.tick by {
                let i = choose|i: int| 0 <= i < self.items@.len() && self.items@[i] == x;
                assert(self.items@.contains(x));
                lemma_root_is_least(self.items@, i);
            }
            assert(self.items@.contains(self.items@[0]));
            Some(self.items[0])
        }
    }

    /// Adds a deadline.
    pub fn push(&mut self, deadline: Deadline)
        requires
            old(self).wf(),
        ensures
            final(self).wf(),
            final(self)@ == old(self)@.insert(deadline),
    {
        broadcast use group_to_multiset_ensures;

        self.items.push(deadline);
        let mut i: usize = self.items.len() - 1;
        let ghost all = self.items@.to_multiset();
        while i > 0
            invariant
                0 <= i < self.items@.len(),
                self.items@.to_multiset() == all,
                ordered_except(self.items@, i as int),
                forall|c: int|
                    #![trigger self.items@[c]]
                    0 < c < self.items@.len() && parent(c) == i && i > 0
                        ==> self.items@[parent(i as int)].tick <= self.items@[c].tick,
            ensures
                self.items@.to_multiset() == all,
                ordered(self.items@),
            decreases i,
        {
            let p: usize = (i - 1) / 2;
            let above = self.items[p];
            let here = self.items[i];
            if above.tick <= here.tick {
                break;
            }
            let ghost before = self.items@;
            self.items.set(p, here);
            self.items.set(i, above);
            proof {
                lemma_swap_keeps_items(before, p as int, i as int);
                assert(self.items@ =~= before.update(p as int, before[i as int]).update(
                    i as int,
                    before[p as int],
                ));
                assert(before[p as int].tick >= before[parent(p as int)].tick || p == 0);
                assert forall|c: int|
                    #![trigger self.items@[c]]
                    0 < c < self.items@.len() && c != p implies self.items@[parent(c)].tick
                    <= self.items@[c].tick by {
                    assert(before[c].tick == before[c].tick);
                    assert(before[parent(c)].tick == before[parent(c)].tick);
                }
                assert forall|c: int|
                    #![trigger self.items@[c]]
                    0 < c < self.items@.len() && parent(c) == p && p > 0 implies self.items@[parent(
                    p as int,
                )].tick <= self.items@[c].tick by {
                    assert(before[c].tick == before[c].tick);
                }
            }
            i = p;
        }
    }

    /// Takes out a deadline with the least tick, if there is any.
    pub fn pop(&mut self) -> (top: Option<Deadline>)
        requires
            old(self).wf(),
        ensures
            final(self).wf(),
            match top {
                Some(d) => {
                    &&& d == old(self).first()
                    &&& old(self)@.contains(d)
                    &&& forall|x: Deadline| #[trigger] old(self)@.contains(x) ==> d.tick <= x.tick
                    &&& final(self)@ == old(self)@.remove(d)
                },
                None => old(self)@ == Multiset::<Deadline>::empty() && final(self)@ == old(self)@,
            },
    {
        broadcast use group_to_multiset_ensures;

        let ghost start = self.items@;
        proof {
            assert forall|x: Deadline| #[trigger] old(self)@.contains(x) implies start[0].tick
                <= x.tick by {
                let i = choose|i: int| 0 <= i < start.len() && start[i] == x;
                assert(start.contains(x));
                lemma_root_is_least(start, i);
            }
        }
        match self.items.pop() {
            None => None,
            Some(last) => {
                assert(self.items@ =~= start.remove(start.len() - 1));
                if self.items.len() == 0 {
                    return Some(last);
                }
                let root = self.items[0];
                let ghost middle = self.items@;
                self.items.set(0, last);
                proof {
                    assert(middle.to_multiset().contains(root));
                    assert(start.to_multiset().remove(last).insert(last) =~= start.to_multiset())
                        by {
                        assert(start.contains(last));
                    }
                    assert(self.items@.to_multiset() =~= start.to_multiset().remove(root));
                    assert forall|c: int|
                        #![trigger self.items@[c]]
                        0 < c < self.items@.len() && parent(c) != 0 implies self.items@[parent(
                        c,
                    )].tick <= self.items@[c].tick by {
                        assert(start[c].tick == start[c].tick);
                    }
                }
                self.sift_down();
                Some(root)
            },
        }
    }

    /// Restores the order after the root was replaced.
    fn sift_down(&mut self)
        requires
            old(self).items@.len() > 0,
            forall|c: int|
                #![trigger old(self).items@[c]]
                0 < c < old(self).items@.len() && parent(c) != 0 ==> old(self).items@[parent(
                    c,
                )].tick <= old(self).items@[c].tick,
        ensures
            final(self).wf(),
            final(self)@ == old(self)@,
    {
        let mut i: usize = 0;
        let ghost all = self.items@.to_multiset();
        let len: usize = self.items.len();
        while i < len / 2
            invariant
                i < self.items@.len(),
                len == self.items@.len(),
                self.items@.to_multiset() == all,
                forall|c: int|
                    #![trigger self.items@[c]]
                    0 < c < len && parent(c) != i ==> self.items@[parent(c)].tick
                        <= self.items@[c].tick,
                forall|c: int|
                    #![trigger self.items@[c]]
                    0 < c < len && parent(c) == i && i > 0 ==> self.items@[parent(i as int)].tick
                        <= self.items@[c].tick,
            ensures
                self.items@.to_multiset() == all,
                ordered(self.items@),
            decreases len - i,
        {
            let left: usize = 2 * i + 1;
            let mut child: usize = left;
            if left + 1 < len && self.items[left + 1].tick < self.items[left].tick {
                child = left + 1;
            }
            let here = self.items[i];
            let below = self.items[child];
            if here.tick <= below.tick {
                break;
            }
            let ghost before = self.items@;
            self.items.set(i, below);
            self.items.set(child, here);
            proof {
                lemma_swap_keeps_items(before, i as int, child as int);
                assert(self.items@ =~= before.update(i as int, before[child as int]).update(
                    child as int,
                    before[i as int],
                ));
                assert forall|c: int|
                    #![trigger self.items@[c]]
                    0 < c < len && parent(c) != child implies self.items@[parent(c)].tick
                    <= self.items@[c].tick by {
                    assert(before[c].tick == before[c].tick);
                    assert(before[parent(c)].tick == before[parent(c)].tick);
                }
                assert forall|c: int|
                    #![trigger self.items@[c]]
                    0 < c < len && parent(c) == child && child > 0 implies self.items@[parent(
                    child as int,
                )].tick <= self.items@[c].tick by {
                    assert(before[c].tick == before[c].tick);
                }
            }
            i = child;
        }
    }
}

} // verus!
