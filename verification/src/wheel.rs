//! A hierarchical timing wheel: which timers there are, and which of them a step of the clock expires.

use crate::heap::{Deadline, DeadlineHeap};
use crate::slots::{
    slab_contents, slab_get, slab_get_mut, slab_insert, slab_is_empty, slab_new, slab_try_remove,
    Record, TimerEntry,
};
use slab::Slab;
use std::task::Waker;
use vstd::multiset::Multiset;
use vstd::prelude::*;

verus! {

/// Number of levels in the hierarchical timing wheel.
pub const NUM_LEVELS: usize = 7;

/// Number of slots per level.
pub const SLOTS_PER_LEVEL: usize = 64;

/// Number of slots over all levels.
pub const NUM_CELLS: usize = 448;

/// Unique identifier for a timer.
#[derive(Debug, Clone, Copy, PartialEq, Eq, Hash, Structural)]
pub struct TimerHandle {
    slab_index: usize,
    generation: u64,
}

impl TimerHandle {
    /// How many timers had been inserted when this one was, itself counted.
    pub closed spec fn serial(&self) -> u64 {
        self.generation
    }
}

/// What a wheel knows of one scheduled timer.
pub struct Alarm {
    pub waker: Waker,
    pub expiration: u64,
}

/// The alarms of `timers` that are due at tick `now`.
pub open spec fn due(timers: Map<TimerHandle, Alarm>, now: int) -> Set<TimerHandle> {
    Set::new(|h: TimerHandle| timers.contains_key(h) && timers[h].expiration <= now)
}

/// The wakers of the alarms `handles`, in that order.
pub open spec fn wakers_of(
    timers: Map<TimerHandle, Alarm>,
    handles: Seq<TimerHandle>,
) -> Seq<Waker> {
    Seq::new(handles.len(), |i: int| timers[handles[i]].waker)
}

/// `handles` lists every member of `set` once.
pub open spec fn lists(handles: Seq<TimerHandle>, set: Set<TimerHandle>) -> bool {
    &&& handles.no_duplicates()
    &&& forall|h: TimerHandle| #[trigger] handles.contains(h) <==> set.contains(h)
}

/// `wakers` holds the waker of each alarm that is due at tick `now`, each once, in some order.
pub open spec fn fires(timers: Map<TimerHandle, Alarm>, now: int, wakers: Seq<Waker>) -> bool {
    exists|handles: Seq<TimerHandle>| #[trigger]
        lists(handles, due(timers, now)) && wakers == wakers_of(timers, handles)
}

/// No alarm is earlier than `tick`, and one is at `tick`.
pub open spec fn is_earliest(timers: Map<TimerHandle, Alarm>, tick: u64) -> bool {
    &&& exists|h: TimerHandle| #[trigger] timers.contains_key(h) && timers[h].expiration == tick
    &&& forall|h: TimerHandle| #[trigger] timers.contains_key(h) ==> tick <= timers[h].expiration
}

/// Width in ticks of one slot of a level: 64 to the power of the level.
pub open spec fn slot_width(level: nat) -> nat
    decreases level,
{
    if level == 0 {
        1
    } else {
        64 * slot_width((level - 1) as nat)
    }
}

/// The level that holds a timer `delay` ticks away: the lowest whose 64 slots reach that far, or
/// the top level where none does.
pub open spec fn is_level_for(level: int, delay: int) -> bool {
    &&& 0 <= level < NUM_LEVELS
    &&& level + 1 < NUM_LEVELS ==> delay < slot_width((level + 1) as nat)
    &&& level > 0 ==> delay >= slot_width(level as nat)
}

spec fn timer(e: Map<usize, Record>, key: usize) -> TimerEntry {
    e[key]->Timer_0
}

spec fn later(a: u64, b: u64) -> u64 {
    if a <= b {
        b
    } else {
        a
    }
}

spec fn cell_of(t: TimerEntry) -> int {
    t.level * 64 + t.slot
}

spec fn alarms(e: Map<usize, Record>) -> Map<TimerHandle, Alarm> {
    Map::new(
        |h: TimerHandle|
            e.contains_key(h.slab_index) && timer(e, h.slab_index).generation == h.generation,
        |h: TimerHandle|
            Alarm {
                waker: timer(e, h.slab_index).waker,
                expiration: timer(e, h.slab_index).expiration_tick,
            },
    )
}

spec fn handle_of(e: Map<usize, Record>, key: usize) -> TimerHandle {
    TimerHandle { slab_index: key, generation: timer(e, key).generation }
}

/// Every record is a timer whose cell exists.
spec fn timers_only(e: Map<usize, Record>) -> bool {
    forall|k: usize| #[trigger]
        e.contains_key(k) ==> e[k] is Timer && timer(e, k).level < 7 && timer(e, k).slot < 64
}

/// Each key outside `pending` stands once, in the cell that its entry names, and no other key
/// stands in a cell.
spec fn placed(cells: Seq<Vec<usize>>, e: Map<usize, Record>, pending: Seq<usize>) -> bool {
    &&& cells.len() == NUM_CELLS
    &&& forall|c: int, j: int|
        #![trigger cells[c]@[j]]
        0 <= c < NUM_CELLS && 0 <= j < cells[c]@.len() ==> {
            &&& e.contains_key(cells[c]@[j])
            &&& cell_of(timer(e, cells[c]@[j])) == c
            &&& !pending.contains(cells[c]@[j])
        }
    &&& forall|c: int| 0 <= c < NUM_CELLS ==> (#[trigger] cells[c])@.no_duplicates()
    &&& forall|k: usize| #[trigger]
        e.contains_key(k) ==> pending.contains(k) || cells[cell_of(timer(e, k))]@.contains(k)
    &&& pending.no_duplicates()
    &&& forall|k: usize| #[trigger] pending.contains(k) ==> e.contains_key(k)
}

/// Every timer is in the heap, the heap holds no false tick for a live timer, and generations
/// are not above `counter`.
spec fn tracked_by(e: Map<usize, Record>, heap: Multiset<Deadline>, counter: u64) -> bool {
    &&& forall|k: usize| #[trigger]
        e.contains_key(k) ==> {
            &&& timer(e, k).generation <= counter
            &&& heap.contains(
                Deadline {
                    tick: timer(e, k).expiration_tick,
                    index: k,
                    generation: timer(e, k).generation,
                },
            )
        }
    &&& forall|d: Deadline| #[trigger]
        heap.contains(d) ==> {
            &&& d.generation <= counter
            &&& e.contains_key(d.index) && timer(e, d.index).generation == d.generation ==> timer(
                e,
                d.index,
            ).expiration_tick == d.tick
        }
}

/// A level 0 timer stands in the slot of its own tick, or of tick `start` where it was already
/// due then, and is less than one turn of the level away.
spec fn timely(e: Map<usize, Record>, start: u64, now: u64) -> bool {
    forall|k: usize| #[trigger]
        e.contains_key(k) && timer(e, k).level == 0 ==> {
            &&& timer(e, k).slot == later(timer(e, k).expiration_tick, start) % 64
            &&& timer(e, k).expiration_tick < now + 64
        }
}

/// Every timer of `e` expires after `now`, or is as in `before` and stands outside `cell`.
spec fn settled(
    before: Map<usize, Record>,
    e: Map<usize, Record>,
    cell: int,
    now: u64,
) -> bool {
    forall|k: usize| #[trigger]
        e.contains_key(k) ==> timer(e, k).expiration_tick > now || (before.contains_key(k) && e[k]
            == before[k] && cell_of(timer(e, k)) != cell)
}

/// `after` is `before` without the alarms `fired`, which were all due.
spec fn fired_from(
    before: Map<TimerHandle, Alarm>,
    after: Map<TimerHandle, Alarm>,
    fired: Seq<TimerHandle>,
    now: u64,
) -> bool {
    &&& fired.no_duplicates()
    &&& forall|h: TimerHandle| #[trigger]
        fired.contains(h) ==> before.contains_key(h) && before[h].expiration <= now
    &&& after == before.remove_keys(fired.to_set())
}

proof fn lemma_fired_step(
    m0: Map<TimerHandle, Alarm>,
    m1: Map<TimerHandle, Alarm>,
    m2: Map<TimerHandle, Alarm>,
    f1: Seq<TimerHandle>,
    f2: Seq<TimerHandle>,
    now: u64,
)
    requires
        fired_from(m0, m1, f1, now),
        fired_from(m1, m2, f2, now),
    ensures
        fired_from(m0, m2, f1 + f2, now),
        wakers_of(m0, f1) + wakers_of(m1, f2) == wakers_of(m0, f1 + f2),
{
    let f = f1 + f2;
    assert forall|h: TimerHandle| #[trigger] f.contains(h) <==> f1.contains(h) || f2.contains(h) by {
        if f1.contains(h) {
            let i = choose|i: int| 0 <= i < f1.len() && f1[i] == h;
            assert(f[i] == h);
        }
        if f2.contains(h) {
            let i = choose|i: int| 0 <= i < f2.len() && f2[i] == h;
            assert(f[f1.len() + i] == h);
        }
    }
    assert forall|h: TimerHandle| #[trigger] f2.contains(h) implies !f1.contains(h) && m0[h] == m1[h]
        && m0.contains_key(h) by {
        assert(m1.contains_key(h));
    }
    assert(f.no_duplicates()) by {
        assert forall|i: int, j: int| 0 <= i < f.len() && 0 <= j < f.len() && i != j implies f[i]
            != f[j] by {
            if i < f1.len() && j >= f1.len() {
                assert(f1.contains(f[i]));
                assert(f2.contains(f2[j - f1.len()]));
            }
            if j < f1.len() && i >= f1.len() {
                assert(f1.contains(f[j]));
                assert(f2.contains(f2[i - f1.len()]));
            }
        }
    }
    assert(m2 =~= m0.remove_keys(f.to_set()));
    assert(wakers_of(m0, f1) + wakers_of(m1, f2) =~= wakers_of(m0, f)) by {
        assert forall|i: int| 0 <= i < f2.len() implies m0[f2[i]] == m1[#[trigger] f2[i]] by {
            assert(f2.contains(f2[i]));
        }
    }
}

proof fn lemma_alarms_remove(e: Map<usize, Record>, key: usize)
    requires
        e.contains_key(key),
    ensures
        alarms(e.remove(key)) == alarms(e).remove(handle_of(e, key)),
{
    assert(alarms(e.remove(key)) =~= alarms(e).remove(handle_of(e, key)));
}

proof fn lemma_alarms_move(e: Map<usize, Record>, key: usize, r: Record)
    requires
        e.contains_key(key),
        e[key] is Timer,
        r is Timer,
        r->Timer_0.waker == timer(e, key).waker,
        r->Timer_0.expiration_tick == timer(e, key).expiration_tick,
        r->Timer_0.generation == timer(e, key).generation,
    ensures
        alarms(e.insert(key, r)) == alarms(e),
{
    assert(alarms(e.insert(key, r)) =~= alarms(e));
}

proof fn lemma_alarms_insert(e: Map<usize, Record>, key: usize, r: Record)
    requires
        !e.contains_key(key),
        r is Timer,
    ensures
        alarms(e.insert(key, r)) == alarms(e).insert(
            TimerHandle { slab_index: key, generation: r->Timer_0.generation },
            Alarm { waker: r->Timer_0.waker, expiration: r->Timer_0.expiration_tick },
        ),
{
    assert(alarms(e.insert(key, r)) =~= alarms(e).insert(
        TimerHandle { slab_index: key, generation: r->Timer_0.generation },
        Alarm { waker: r->Timer_0.waker, expiration: r->Timer_0.expiration_tick },
    ));
}

/// Emptying a cell makes its keys pending.
proof fn lemma_placed_take(
    cells: Seq<Vec<usize>>,
    emptied: Seq<Vec<usize>>,
    e: Map<usize, Record>,
    cell: int,
)
    requires
        timers_only(e),
        placed(cells, e, Seq::empty()),
        0 <= cell < NUM_CELLS,
        emptied.len() == NUM_CELLS,
        emptied[cell]@.len() == 0,
        forall|c: int| 0 <= c < NUM_CELLS && c != cell ==> #[trigger] emptied[c] == cells[c],
    ensures
        placed(emptied, e, cells[cell]@),
{
    let pending = cells[cell]@;
    assert forall|c: int, j: int|
        #![trigger emptied[c]@[j]]
        0 <= c < NUM_CELLS && 0 <= j < emptied[c]@.len() implies {
        &&& e.contains_key(emptied[c]@[j])
        &&& cell_of(timer(e, emptied[c]@[j])) == c
        &&& !pending.contains(emptied[c]@[j])
    } by {
        assert(c != cell);
        assert(emptied[c] == cells[c]);
        let k = cells[c]@[j];
        if pending.contains(k) {
            let i = choose|i: int| 0 <= i < pending.len() && pending[i] == k;
            assert(cells[cell]@[i] == k);
        }
    }
    assert forall|k: usize| #[trigger] e.contains_key(k) implies pending.contains(k)
        || emptied[cell_of(timer(e, k))]@.contains(k) by {
        assert(cells[cell_of(timer(e, k))]@.contains(k));
    }
    assert forall|k: usize| #[trigger] pending.contains(k) implies e.contains_key(k) by {
        let i = choose|i: int| 0 <= i < pending.len() && pending[i] == k;
        assert(cells[cell]@[i] == k);
    }
}

/// Dropping the first pending key together with its entry keeps the placement.
proof fn lemma_placed_drop(cells: Seq<Vec<usize>>, e: Map<usize, Record>, pending: Seq<usize>)
    requires
        placed(cells, e, pending),
        pending.len() > 0,
    ensures
        placed(cells, e.remove(pending[0]), pending.drop_first()),
{
    let key = pending[0];
    let rest = pending.drop_first();
    assert(pending.contains(key));
    assert forall|k: usize| #[trigger] rest.contains(k) implies pending.contains(k) && k != key by {
        let i = choose|i: int| 0 <= i < rest.len() && rest[i] == k;
        assert(pending[i + 1] == k);
    }
    assert forall|k: usize| pending.contains(k) && k != key implies rest.contains(k) by {
        let i = choose|i: int| 0 <= i < pending.len() && pending[i] == k;
        assert(rest[i - 1] == k);
    }
}

/// Putting the first pending key into the cell that its changed entry names keeps the placement.
proof fn lemma_placed_move(
    cells: Seq<Vec<usize>>,
    filled: Seq<Vec<usize>>,
    e: Map<usize, Record>,
    pending: Seq<usize>,
    r: Record,
)
    requires
        timers_only(e),
        placed(cells, e, pending),
        pending.len() > 0,
        0 <= cell_of(r->Timer_0) < NUM_CELLS,
        filled.len() == NUM_CELLS,
        filled[cell_of(r->Timer_0)]@ == cells[cell_of(r->Timer_0)]@.push(pending[0]),
        forall|c: int|
            0 <= c < NUM_CELLS && c != cell_of(r->Timer_0) ==> #[trigger] filled[c] == cells[c],
    ensures
        placed(filled, e.insert(pending[0], r), pending.drop_first()),
{
    let key = pending[0];
    let cell = cell_of(r->Timer_0);
    let rest = pending.drop_first();
    let e2 = e.insert(key, r);
    assert(pending.contains(key));
    assert forall|k: usize| #[trigger] rest.contains(k) implies pending.contains(k) && k != key by {
        let i = choose|i: int| 0 <= i < rest.len() && rest[i] == k;
        assert(pending[i + 1] == k);
    }
    assert forall|k: usize| pending.contains(k) && k != key implies rest.contains(k) by {
        let i = choose|i: int| 0 <= i < pending.len() && pending[i] == k;
        assert(rest[i - 1] == k);
    }
    assert forall|c: int, j: int|
        #![trigger filled[c]@[j]]
        0 <= c < NUM_CELLS && 0 <= j < filled[c]@.len() implies {
        &&& e2.contains_key(filled[c]@[j])
        &&& cell_of(timer(e2, filled[c]@[j])) == c
        &&& !rest.contains(filled[c]@[j])
    } by {
        if c == cell && j == cells[c]@.len() {
        } else {
            assert(filled[c]@[j] == cells[c]@[j]);
        }
    }
    assert forall|c: int| 0 <= c < NUM_CELLS implies (#[trigger] filled[c])@.no_duplicates() by {
        assert(cells[c]@.no_duplicates());
        if c == cell {
            assert forall|i: int, j: int|
                0 <= i < filled[c]@.len() && 0 <= j < filled[c]@.len() && i != j implies filled[c]@[i]
                != filled[c]@[j] by {
                if i < cells[c]@.len() {
                    assert(cells[c]@[i] != key);
                }
                if j < cells[c]@.len() {
                    assert(cells[c]@[j] != key);
                }
            }
        }
    }
    assert forall|k: usize| #[trigger] e2.contains_key(k) implies rest.contains(k)
        || filled[cell_of(timer(e2, k))]@.contains(k) by {
        if k == key {
            assert(filled[cell]@[cells[cell]@.len() as int] == key);
        } else if !pending.contains(k) {
            let c = cell_of(timer(e, k));
            assert(e.contains_key(k));
            let i = choose|i: int| 0 <= i < cells[c]@.len() && cells[c]@[i] == k;
            assert(filled[c]@[i] == k);
        }
    }
}

/// Adding a new key to the cell that its entry names keeps the placement.
proof fn lemma_placed_insert(
    cells: Seq<Vec<usize>>,
    filled: Seq<Vec<usize>>,
    e: Map<usize, Record>,
    key: usize,
    r: Record,
)
    requires
        timers_only(e),
        placed(cells, e, Seq::empty()),
        !e.contains_key(key),
        0 <= cell_of(r->Timer_0) < NUM_CELLS,
        filled.len() == NUM_CELLS,
        filled[cell_of(r->Timer_0)]@ == cells[cell_of(r->Timer_0)]@.push(key),
        forall|c: int|
            0 <= c < NUM_CELLS && c != cell_of(r->Timer_0) ==> #[trigger] filled[c] == cells[c],
    ensures
        placed(filled, e.insert(key, r), Seq::empty()),
{
    let cell = cell_of(r->Timer_0);
    let e2 = e.insert(key, r);
    assert forall|c: int, j: int|
        #![trigger filled[c]@[j]]
        0 <= c < NUM_CELLS && 0 <= j < filled[c]@.len() implies {
        &&& e2.contains_key(filled[c]@[j])
        &&& cell_of(timer(e2, filled[c]@[j])) == c
    } by {
        if c == cell && j == cells[c]@.len() {
        } else {
            assert(filled[c]@[j] == cells[c]@[j]);
        }
    }
    assert forall|c: int| 0 <= c < NUM_CELLS implies (#[trigger] filled[c])@.no_duplicates() by {
        assert(cells[c]@.no_duplicates());
        if c == cell {
            assert forall|i: int, j: int|
                0 <= i < filled[c]@.len() && 0 <= j < filled[c]@.len() && i != j implies filled[c]@[i]
                != filled[c]@[j] by {
                if i < cells[c]@.len() {
                    assert(cells[c]@[i] != key);
                }
                if j < cells[c]@.len() {
                    assert(cells[c]@[j] != key);
                }
            }
        }
    }
    assert forall|k: usize| #[trigger] e2.contains_key(k) implies filled[cell_of(
        timer(e2, k),
    )]@.contains(k) by {
        if k == key {
            assert(filled[cell]@[cells[cell]@.len() as int] == key);
        } else {
            let c = cell_of(timer(e, k));
            assert(e.contains_key(k));
            assert(cells[c]@.contains(k));
            let i = choose|i: int| 0 <= i < cells[c]@.len() && cells[c]@[i] == k;
            assert(filled[c]@[i] == k);
        }
    }
}

/// Taking a key out of its cell together with its entry keeps the placement.
proof fn lemma_placed_remove(
    cells: Seq<Vec<usize>>,
    rest: Seq<Vec<usize>>,
    e: Map<usize, Record>,
    key: usize,
    pos: int,
)
    requires
        timers_only(e),
        placed(cells, e, Seq::empty()),
        e.contains_key(key),
        0 <= pos < cells[cell_of(timer(e, key))]@.len(),
        cells[cell_of(timer(e, key))]@[pos] == key,
        rest.len() == NUM_CELLS,
        rest[cell_of(timer(e, key))]@ == cells[cell_of(timer(e, key))]@.remove(pos),
        forall|c: int|
            0 <= c < NUM_CELLS && c != cell_of(timer(e, key)) ==> #[trigger] rest[c] == cells[c],
    ensures
        placed(rest, e.remove(key), Seq::empty()),
{
    let cell = cell_of(timer(e, key));
    let e2 = e.remove(key);
    assert(cells[cell]@.no_duplicates());
    assert forall|c: int, j: int|
        #![trigger rest[c]@[j]]
        0 <= c < NUM_CELLS && 0 <= j < rest[c]@.len() implies {
        &&& e2.contains_key(rest[c]@[j])
        &&& cell_of(timer(e2, rest[c]@[j])) == c
    } by {
        if c == cell {
            let i = if j < pos { j } else { j + 1 };
            assert(rest[c]@[j] == cells[c]@[i]);
        } else {
            assert(rest[c]@[j] == cells[c]@[j]);
        }
    }
    assert forall|c: int| 0 <= c < NUM_CELLS implies (#[trigger] rest[c])@.no_duplicates() by {
        assert(cells[c]@.no_duplicates());
    }
    assert forall|k: usize| #[trigger] e2.contains_key(k) implies rest[cell_of(
        timer(e2, k),
    )]@.contains(k) by {
        let c = cell_of(timer(e, k));
        assert(e.contains_key(k));
        assert(cells[c]@.contains(k));
        let i = choose|i: int| 0 <= i < cells[c]@.len() && cells[c]@[i] == k;
        if c == cell {
            assert(rest[c]@[if i < pos { i } else { i - 1 }] == k);
        } else {
            assert(rest[c]@[i] == k);
        }
    }
}

/// Every timer on `level` or above expires after `now`.
spec fn late_from(e: Map<usize, Record>, level: int, now: u64) -> bool {
    forall|k: usize| #[trigger]
        e.contains_key(k) && timer(e, k).level >= level ==> timer(e, k).expiration_tick > now
}

/// The slot of a tick between `start` and `now` is among those passed over on the way.
proof fn lemma_slot_passed(start: int, now: int, tick: int)
    requires
        0 <= start <= tick <= now,
        now < start + 64,
    ensures
        start % 64 <= now % 64 ==> start % 64 <= tick % 64 <= now % 64,
        start % 64 > now % 64 ==> start % 64 <= tick % 64 || tick % 64 <= now % 64,
{
}

/// A hierarchical hashed timing wheel with 7 levels and 64 slots each. One tick is one
/// millisecond.
///
/// A slot of level 0 is one tick wide, and a slot of each further level is as wide as all of the
/// level below it.
pub struct TimingWheel {
    /// Storage for all timer entries.
    entries: Slab<Record>,
    /// The keys in each slot, level by level.
    cells: Vec<Vec<usize>>,
    /// Current tick count.
    current_tick: u64,
    /// Generation counter for handling key reuse.
    generation_counter: u64,
    /// The minimum expiration tick among all entries.
    min_expiration_tick: Option<u64>,
    /// Deadlines in order, with those of timers that are gone left in until they surface.
    expiration_heap: DeadlineHeap,
}

impl TimingWheel {
    /// The scheduled timers.
    pub closed spec fn view(&self) -> Map<TimerHandle, Alarm> {
        alarms(slab_contents(self.entries))
    }

    /// The current tick.
    pub closed spec fn tick(&self) -> u64 {
        self.current_tick
    }

    /// The number of timers ever inserted.
    pub closed spec fn inserted(&self) -> u64 {
        self.generation_counter
    }

    /// Everything but the cached minimum is in order, where the level 0 slots were filled no
    /// earlier than tick `start`.
    spec fn consistent(&self, start: u64) -> bool {
        let e = slab_contents(self.entries);
        &&& timers_only(e)
        &&& placed(self.cells@, e, Seq::empty())
        &&& self.expiration_heap.wf()
        &&& tracked_by(e, self.expiration_heap@, self.generation_counter)
        &&& timely(e, start, self.current_tick)
    }

    /// The wheel's invariant.
    pub closed spec fn wf(&self) -> bool {
        &&& self.consistent(self.current_tick)
        &&& match self.min_expiration_tick {
            Some(tick) => is_earliest(self@, tick),
            None => self@.dom().is_empty(),
        }
    }

    /// A wheel at tick zero without timers.
    pub fn new() -> (wheel: Self)
        ensures
            wheel.wf(),
            wheel@.dom().is_empty(),
            wheel.tick() == 0,
            wheel.inserted() == 0,
    {
        let mut cells: Vec<Vec<usize>> = Vec::new();
        let mut i: usize = 0;
        while i < NUM_CELLS
            invariant
                i <= NUM_CELLS,
                cells@.len() == i,
                forall|c: int| 0 <= c < i ==> (#[trigger] cells@[c])@.len() == 0,
            decreases NUM_CELLS - i,
        {
            cells.push(Vec::new());
            i += 1;
        }
        TimingWheel {
            entries: slab_new(),
            cells,
            current_tick: 0,
            generation_counter: 0,
            min_expiration_tick: None,
            expiration_heap: DeadlineHeap::new(),
        }
    }

    /// Whether no timer is scheduled.
    pub fn is_empty(&self) -> (empty: bool)
        requires
            self.wf(),
        ensures
            empty == self@.dom().is_empty(),
    {
        let empty = slab_is_empty(&self.entries);
        proof {
            let e = slab_contents(self.entries);
            if !e.dom().is_empty() {
                let k = choose|k: usize| e.dom().contains(k);
                assert(e.contains_key(k));
                assert(self@.dom().contains(handle_of(e, k)));
            } else {
                assert(self@.dom() =~= Set::empty());
            }
        }
        empty
    }

    /// The current tick.
    pub fn now(&self) -> (tick: u64)
        ensures
            tick == self.tick(),
    {
        self.current_tick
    }

    /// The level and slot for a timer: by its distance from the current tick, and on level 0 by
    /// the tick itself.
    fn calculate_level_and_slot(expiration_tick: u64, current_tick: u64) -> (r: (usize, usize))
        ensures
            r.0 < NUM_LEVELS,
            r.1 < SLOTS_PER_LEVEL,
            ({
                let tick = later(expiration_tick, current_tick);
                &&& is_level_for(r.0 as int, tick - current_tick)
                &&& r.0 == 0 ==> r.1 == tick % 64
                &&& r.0 > 0 ==> r.1 == (tick - current_tick) / (slot_width(r.0 as nat) as int) % 64
            }),
    {
        let delay: u64 = expiration_tick.saturating_sub(current_tick);
        let mut level: usize = 0;
        let mut width: u64 = 1;
        proof {
            lemma_slot_width_bound(0);
        }
        while level + 1 < NUM_LEVELS && delay >= 64 * width
            invariant
                level < NUM_LEVELS,
                width == slot_width(level as nat),
                0 < width <= 68719476736,
                level > 0 ==> delay >= width,
            decreases NUM_LEVELS - level,
        {
            level += 1;
            width = 64 * width;
            proof {
                lemma_slot_width_bound(level as nat);
            }
        }
        if level == 0 {
            let tick: u64 = if expiration_tick <= current_tick {
                current_tick
            } else {
                expiration_tick
            };
            (0, (tick % 64) as usize)
        } else {
            (level, ((delay / width) % 64) as usize)
        }
    }

    /// Drops the deadlines of timers that are gone from the top of the heap, and takes the first
    /// that is left for the minimum.
    fn refresh_min_expiration(&mut self)
        requires
            old(self).consistent(old(self).current_tick),
        ensures
            final(self).wf(),
            final(self)@ == old(self)@,
            final(self).tick() == old(self).tick(),
            final(self).inserted() == old(self).inserted(),
    {
        let ghost e = slab_contents(self.entries);
        let ghost tick = self.current_tick;
        let ghost counter = self.generation_counter;
        loop
            invariant
                self.consistent(tick),
                self.current_tick == tick,
                self.generation_counter == counter,
                slab_contents(self.entries) == e,
                e == slab_contents(old(self).entries),
                tick == old(self).current_tick,
                counter == old(self).generation_counter,
            decreases self.expiration_heap@.len(),
        {
            match self.expiration_heap.peek() {
                None => {
                    self.min_expiration_tick = None;
                    proof {
                        assert forall|k: usize| !e.contains_key(k) by {
                            if e.contains_key(k) {
                                assert(self.expiration_heap@.contains(
                                    Deadline {
                                        tick: timer(e, k).expiration_tick,
                                        index: k,
                                        generation: timer(e, k).generation,
                                    },
                                ));
                            }
                        }
                        assert(self@.dom() =~= Set::empty());
                    }
                    return;
                },
                Some(top) => {
                    match slab_get(&self.entries, top.index) {
                        Some(Record::Timer(entry)) => {
                            if entry.generation == top.generation {
                                self.min_expiration_tick = Some(entry.expiration_tick);
                                proof {
                                    let h = handle_of(e, top.index);
                                    assert(self@.contains_key(h));
                                    assert forall|h2: TimerHandle| #[trigger]
                                        self@.contains_key(h2) implies top.tick
                                        <= self@[h2].expiration by {
                                        assert(e.contains_key(h2.slab_index));
                                        assert(self.expiration_heap@.contains(
                                            Deadline {
                                                tick: timer(e, h2.slab_index).expiration_tick,
                                                index: h2.slab_index,
                                                generation: h2.generation,
                                            },
                                        ));
                                    }
                                }
                                return;
                            }
                        },
                        _ => {},
                    }
                    let ghost before = self.expiration_heap@;
                    let _ = self.expiration_heap.pop();
                    proof {
                        assert forall|d: Deadline| before.contains(d) && d
                            != top implies self.expiration_heap@.contains(d) by {}
                        assert forall|d: Deadline| #[trigger]
                            self.expiration_heap@.contains(d) implies before.contains(d) by {}
                    }
                },
            }
        }
    }

    /// The earliest expiration tick, if any timer is scheduled and that tick is not zero.
    pub fn nearest_wakeup(&mut self) -> (nearest: Option<u64>)
        requires
            old(self).wf(),
        ensures
            final(self).wf(),
            final(self)@ == old(self)@,
            final(self).tick() == old(self).tick(),
            final(self).inserted() == old(self).inserted(),
            match nearest {
                Some(tick) => tick > 0 && is_earliest(old(self)@, tick),
                None => old(self)@.dom().is_empty() || is_earliest(old(self)@, 0),
            },
    {
        self.refresh_min_expiration();
        match self.min_expiration_tick {
            Some(tick) => if tick == 0 {
                None
            } else {
                Some(tick)
            },
            None => None,
        }
    }

    /// Lowers the minimum expiration tick for a timer that was put in.
    fn update_min_on_insert(&mut self, expiration_tick: u64)
        ensures
            final(self).entries == old(self).entries,
            final(self).cells == old(self).cells,
            final(self).current_tick == old(self).current_tick,
            final(self).generation_counter == old(self).generation_counter,
            final(self).expiration_heap == old(self).expiration_heap,
            final(self).min_expiration_tick == match old(self).min_expiration_tick {
                Some(min) => Some(if min <= expiration_tick { min } else { expiration_tick }),
                None => Some(expiration_tick),
            },
    {
        self.min_expiration_tick = match self.min_expiration_tick {
            Some(min) => Some(
                if min <= expiration_tick {
                    min
                } else {
                    expiration_tick
                },
            ),
            None => Some(expiration_tick),
        };
    }

    /// Inserts a timer that expires at the given tick.
    pub fn insert(&mut self, waker: Waker, expiration_tick: u64) -> (handle: TimerHandle)
        requires
            old(self).wf(),
            old(self).inserted() < u64::MAX,
        ensures
            final(self).wf(),
            !old(self)@.contains_key(handle),
            final(self)@ == old(self)@.insert(handle, (Alarm { waker, expiration: expiration_tick })),
            final(self).tick() == old(self).tick(),
            final(self).inserted() == old(self).inserted() + 1,
            handle.serial() == final(self).inserted(),
    {
        let (level, slot) = Self::calculate_level_and_slot(expiration_tick, self.current_tick);
        proof {
            reveal_with_fuel(slot_width, 2);
        }
        self.generation_counter = self.generation_counter + 1;
        let generation: u64 = self.generation_counter;
        let ghost e = slab_contents(self.entries);
        let ghost cells = self.cells@;
        let ghost r = Record::Timer(TimerEntry { waker, expiration_tick, generation, level, slot });
        let slab_index: usize = slab_insert(
            &mut self.entries,
            Record::Timer(TimerEntry { waker, expiration_tick, generation, level, slot }),
        );
        let cell: usize = level * SLOTS_PER_LEVEL + slot;
        self.cells[cell].push(slab_index);
        let deadline = Deadline { tick: expiration_tick, index: slab_index, generation };
        let ghost heap = self.expiration_heap@;
        self.expiration_heap.push(deadline);
        self.update_min_on_insert(expiration_tick);
        let handle = TimerHandle { slab_index, generation };
        proof {
            let e2 = slab_contents(self.entries);
            lemma_placed_insert(cells, self.cells@, e, slab_index, r);
            lemma_alarms_insert(e, slab_index, r);
            assert forall|d: Deadline| #[trigger] heap.contains(d) implies self.expiration_heap@.contains(
                d,
            ) by {}
            assert forall|d: Deadline| #[trigger] self.expiration_heap@.contains(d) implies d
                == deadline || heap.contains(d) by {}
            assert(self.expiration_heap@.contains(deadline));
            assert(tracked_by(e2, self.expiration_heap@, self.generation_counter));
            assert(self@.contains_key(handle));
            match old(self).min_expiration_tick {
                Some(min) => {
                    let h = choose|h: TimerHandle| #[trigger]
                        old(self)@.contains_key(h) && old(self)@[h].expiration == min;
                    assert(old(self)@.contains_key(h));
                    assert(self@.contains_key(h) && self@[h] == old(self)@[h]);
                },
                None => {
                    assert forall|h: TimerHandle| #[trigger] self@.contains_key(h) implies h
                        == handle by {
                        assert(h == handle || old(self)@.dom().contains(h));
                    }
                },
            }
        }
        handle
    }

    /// Removes the timer of the given handle, if it is still scheduled.
    pub fn remove(&mut self, handle: TimerHandle)
        requires
            old(self).wf(),
        ensures
            final(self).wf(),
            final(self)@ == old(self)@.remove(handle),
            final(self).tick() == old(self).tick(),
            final(self).inserted() == old(self).inserted(),
    {
        let slab_index: usize = handle.slab_index;
        let found: Option<usize> = match slab_get(&self.entries, slab_index) {
            Some(Record::Timer(entry)) => if entry.generation == handle.generation {
                Some(entry.level * SLOTS_PER_LEVEL + entry.slot)
            } else {
                None
            },
            _ => None,
        };
        let cell: usize = match found {
            Some(cell) => cell,
            None => {
                assert(self@.remove(handle) =~= self@);
                return;
            },
        };
        let ghost e = slab_contents(self.entries);
        let ghost cells = self.cells@;
        let mut pos: usize = 0;
        while pos < self.cells[cell].len() && self.cells[cell][pos] != slab_index
            invariant
                cell < NUM_CELLS,
                self.cells@.len() == NUM_CELLS,
                pos <= self.cells@[cell as int]@.len(),
                forall|i: int| 0 <= i < pos ==> self.cells@[cell as int]@[i] != slab_index,
            decreases self.cells@[cell as int]@.len() - pos,
        {
            pos += 1;
        }
        if pos < self.cells[cell].len() {
            let _ = self.cells[cell].remove(pos);
        }
        let _ = slab_try_remove(&mut self.entries, slab_index);
        proof {
            lemma_placed_remove(cells, self.cells@, e, slab_index, pos as int);
            lemma_alarms_remove(e, slab_index);
        }
        self.refresh_min_expiration();
    }

    /// Empties one slot: timers that are due leave the wheel and give up their wakers, and the
    /// others move to where they belong at the current tick. Returns the timers that left.
    fn settle_cell(
        &mut self,
        cell: usize,
        expired_wakers: &mut Vec<Waker>,
        Ghost(start): Ghost<u64>,
    ) -> (fired: Ghost<Seq<TimerHandle>>)
        requires
            cell < NUM_CELLS,
            start <= old(self).current_tick,
            old(self).consistent(start),
        ensures
            final(self).consistent(start),
            final(self).current_tick == old(self).current_tick,
            final(self).generation_counter == old(self).generation_counter,
            settled(
                slab_contents(old(self).entries),
                slab_contents(final(self).entries),
                cell as int,
                old(self).current_tick,
            ),
            fired_from(old(self)@, final(self)@, fired@, old(self).current_tick),
            final(expired_wakers)@ == old(expired_wakers)@ + wakers_of(old(self)@, fired@),
    {
        let ghost mut fired: Seq<TimerHandle> = Seq::empty();
        let ghost e0 = slab_contents(self.entries);
        let ghost cells0 = self.cells@;
        let ghost now = self.current_tick;
        let ghost counter = self.generation_counter;
        let ghost before = expired_wakers@;
        let mut taken: Vec<usize> = Vec::new();
        std::mem::swap(&mut taken, &mut self.cells[cell]);
        proof {
            lemma_placed_take(cells0, self.cells@, e0, cell as int);
            assert(taken@.skip(0) =~= taken@);
            assert(alarms(e0).remove_keys(fired.to_set()) =~= alarms(e0));
            assert(before + wakers_of(alarms(e0), fired) =~= before);
        }
        let mut i: usize = 0;
        while i < taken.len()
            invariant
                i <= taken@.len(),
                cell < NUM_CELLS,
                start <= now,
                self.current_tick == now,
                self.generation_counter == counter,
                now == old(self).current_tick,
                counter == old(self).generation_counter,
                e0 == slab_contents(old(self).entries),
                old(self)@ == alarms(e0),
                before == old(expired_wakers)@,
                timers_only(slab_contents(self.entries)),
                placed(self.cells@, slab_contents(self.entries), taken@.skip(i as int)),
                self.expiration_heap.wf(),
                tracked_by(
                    slab_contents(self.entries),
                    self.expiration_heap@,
                    self.generation_counter,
                ),
                timely(slab_contents(self.entries), start, now),
                forall|k: usize| #[trigger]
                    slab_contents(self.entries).contains_key(k) ==> timer(
                        slab_contents(self.entries),
                        k,
                    ).expiration_tick > now || (e0.contains_key(k) && slab_contents(
                        self.entries,
                    )[k] == e0[k] && (cell_of(timer(e0, k)) != cell || taken@.skip(
                        i as int,
                    ).contains(k))),
                fired_from(alarms(e0), alarms(slab_contents(self.entries)), fired, now),
                expired_wakers@ == before + wakers_of(alarms(e0), fired),
            decreases taken@.len() - i,
        {
            let key: usize = taken[i];
            let ghost e = slab_contents(self.entries);
            let ghost cells = self.cells@;
            let ghost pending = taken@.skip(i as int);
            let ghost m = alarms(e);
            proof {
                assert(pending[0] == key);
                assert(pending.contains(key));
                assert(pending.drop_first() =~= taken@.skip(i + 1));
                assert forall|k: usize| pending.contains(k) && k
                    != key implies pending.drop_first().contains(k) by {
                    let j = choose|j: int| 0 <= j < pending.len() && pending[j] == k;
                    assert(pending.drop_first()[j - 1] == k);
                }
            }
            let expiration_tick: u64 = match slab_get(&self.entries, key) {
                Some(Record::Timer(entry)) => entry.expiration_tick,
                _ => 0,
            };
            if expiration_tick <= self.current_tick {
                match slab_try_remove(&mut self.entries, key) {
                    Some(Record::Timer(entry)) => {
                        expired_wakers.push(entry.waker);
                    },
                    _ => {},
                }
                proof {
                    let h = handle_of(e, key);
                    let one = seq![h];
                    lemma_placed_drop(cells, e, pending);
                    lemma_alarms_remove(e, key);
                    assert(m.contains_key(h));
                    assert(one.contains(h)) by {
                        assert(one[0] == h);
                    }
                    assert(m.remove(h) =~= m.remove_keys(one.to_set()));
                    assert(fired_from(m, alarms(slab_contents(self.entries)), one, now));
                    lemma_fired_step(
                        alarms(e0),
                        m,
                        alarms(slab_contents(self.entries)),
                        fired,
                        one,
                        now,
                    );
                    assert(wakers_of(m, one) =~= seq![timer(e, key).waker]);
                    assert(expired_wakers@ =~= before + wakers_of(alarms(e0), fired + one));
                    fired = fired + one;
                }
            } else {
                let (level, slot) = Self::calculate_level_and_slot(
                    expiration_tick,
                    self.current_tick,
                );
                match slab_get_mut(&mut self.entries, key) {
                    Some(Record::Timer(entry)) => {
                        entry.level = level;
                        entry.slot = slot;
                    },
                    _ => {},
                }
                let target: usize = level * SLOTS_PER_LEVEL + slot;
                self.cells[target].push(key);
                proof {
                    reveal_with_fuel(slot_width, 2);
                    let r = slab_contents(self.entries)[key];
                    assert(slab_contents(self.entries) == e.insert(key, r));
                    lemma_placed_move(cells, self.cells@, e, pending, r);
                    lemma_alarms_move(e, key, r);
                }
            }
            i += 1;
        }
        proof {
            assert(taken@.skip(taken@.len() as int) =~= Seq::empty());
        }
        Ghost(fired)
    }

    /// Moves the timers of one level down, or out where they are due.
    fn cascade_level(
        &mut self,
        level: usize,
        expired_wakers: &mut Vec<Waker>,
        Ghost(start): Ghost<u64>,
    ) -> (fired: Ghost<Seq<TimerHandle>>)
        requires
            1 <= level < NUM_LEVELS,
            start <= old(self).current_tick,
            old(self).consistent(start),
            late_from(slab_contents(old(self).entries), level as int + 1, old(self).current_tick),
        ensures
            final(self).consistent(start),
            final(self).current_tick == old(self).current_tick,
            final(self).generation_counter == old(self).generation_counter,
            late_from(slab_contents(final(self).entries), level as int, old(self).current_tick),
            fired_from(old(self)@, final(self)@, fired@, old(self).current_tick),
            final(expired_wakers)@ == old(expired_wakers)@ + wakers_of(old(self)@, fired@),
    {
        let ghost mut fired: Seq<TimerHandle> = Seq::empty();
        let ghost m0 = self@;
        let ghost before = expired_wakers@;
        let ghost now = self.current_tick;
        let ghost counter = self.generation_counter;
        proof {
            assert(m0.remove_keys(fired.to_set()) =~= m0);
            assert(before + wakers_of(m0, fired) =~= before);
        }
        let mut slot: usize = 0;
        while slot < SLOTS_PER_LEVEL
            invariant
                slot <= SLOTS_PER_LEVEL,
                1 <= level < NUM_LEVELS,
                start <= now,
                self.consistent(start),
                self.current_tick == now,
                self.generation_counter == counter,
                now == old(self).current_tick,
                counter == old(self).generation_counter,
                m0 == old(self)@,
                before == old(expired_wakers)@,
                late_from(slab_contents(self.entries), level as int + 1, now),
                forall|k: usize| #[trigger]
                    slab_contents(self.entries).contains_key(k) && timer(
                        slab_contents(self.entries),
                        k,
                    ).level == level && timer(slab_contents(self.entries), k).slot < slot ==> timer(
                        slab_contents(self.entries),
                        k,
                    ).expiration_tick > now,
                fired_from(m0, self@, fired, now),
                expired_wakers@ == before + wakers_of(m0, fired),
            decreases SLOTS_PER_LEVEL - slot,
        {
            let ghost m1 = self@;
            let ghost e1 = slab_contents(self.entries);
            let Ghost(more) = self.settle_cell(
                level * SLOTS_PER_LEVEL + slot,
                expired_wakers,
                Ghost(start),
            );
            proof {
                let e2 = slab_contents(self.entries);
                assert forall|k: usize| #[trigger] e2.contains_key(k) && timer(e2, k).level == level
                    && timer(e2, k).slot < slot + 1 implies timer(e2, k).expiration_tick > now by {}
                lemma_fired_step(m0, m1, self@, fired, more, now);
                assert(expired_wakers@ =~= before + wakers_of(m0, fired + more));
                fired = fired + more;
            }
            slot += 1;
        }
        Ghost(fired)
    }

    /// Moves the timers of all levels above the lowest down, or out where they are due.
    fn cascade_all_levels(
        &mut self,
        expired_wakers: &mut Vec<Waker>,
        Ghost(start): Ghost<u64>,
    ) -> (fired: Ghost<Seq<TimerHandle>>)
        requires
            start <= old(self).current_tick,
            old(self).consistent(start),
        ensures
            final(self).consistent(start),
            final(self).current_tick == old(self).current_tick,
            final(self).generation_counter == old(self).generation_counter,
            late_from(slab_contents(final(self).entries), 1, old(self).current_tick),
            fired_from(old(self)@, final(self)@, fired@, old(self).current_tick),
            final(expired_wakers)@ == old(expired_wakers)@ + wakers_of(old(self)@, fired@),
    {
        let ghost mut fired: Seq<TimerHandle> = Seq::empty();
        let ghost m0 = self@;
        let ghost before = expired_wakers@;
        let ghost now = self.current_tick;
        let ghost counter = self.generation_counter;
        proof {
            assert(m0.remove_keys(fired.to_set()) =~= m0);
            assert(before + wakers_of(m0, fired) =~= before);
        }
        let mut level: usize = NUM_LEVELS;
        while level > 1
            invariant
                1 <= level <= NUM_LEVELS,
                start <= now,
                self.consistent(start),
                self.current_tick == now,
                self.generation_counter == counter,
                now == old(self).current_tick,
                counter == old(self).generation_counter,
                m0 == old(self)@,
                before == old(expired_wakers)@,
                late_from(slab_contents(self.entries), level as int, now),
                fired_from(m0, self@, fired, now),
                expired_wakers@ == before + wakers_of(m0, fired),
            decreases level,
        {
            level -= 1;
            let ghost m1 = self@;
            let Ghost(more) = self.cascade_level(level, expired_wakers, Ghost(start));
            proof {
                lemma_fired_step(m0, m1, self@, fired, more, now);
                assert(expired_wakers@ =~= before + wakers_of(m0, fired + more));
                fired = fired + more;
            }
        }
        Ghost(fired)
    }

    /// Settles one slot of level 0.
    fn process_slot_at_level_0(
        &mut self,
        slot: usize,
        expired_wakers: &mut Vec<Waker>,
        Ghost(start): Ghost<u64>,
    ) -> (fired: Ghost<Seq<TimerHandle>>)
        requires
            slot < SLOTS_PER_LEVEL,
            start <= old(self).current_tick,
            old(self).consistent(start),
        ensures
            final(self).consistent(start),
            final(self).current_tick == old(self).current_tick,
            final(self).generation_counter == old(self).generation_counter,
            settled(
                slab_contents(old(self).entries),
                slab_contents(final(self).entries),
                slot as int,
                old(self).current_tick,
            ),
            fired_from(old(self)@, final(self)@, fired@, old(self).current_tick),
            final(expired_wakers)@ == old(expired_wakers)@ + wakers_of(old(self)@, fired@),
    {
        self.settle_cell(slot, expired_wakers, Ghost(start))
    }

    /// Settles the slots of level 0 from `first` up to, but not with, `end`.
    fn process_slots(
        &mut self,
        first: usize,
        end: usize,
        expired_wakers: &mut Vec<Waker>,
        Ghost(start): Ghost<u64>,
    ) -> (fired: Ghost<Seq<TimerHandle>>)
        requires
            first <= end <= SLOTS_PER_LEVEL,
            start <= old(self).current_tick,
            old(self).consistent(start),
        ensures
            final(self).consistent(start),
            final(self).current_tick == old(self).current_tick,
            final(self).generation_counter == old(self).generation_counter,
            forall|k: usize| #[trigger]
                slab_contents(final(self).entries).contains_key(k) ==> {
                    ||| timer(slab_contents(final(self).entries), k).expiration_tick > old(
                        self,
                    ).current_tick
                    ||| {
                        &&& slab_contents(old(self).entries).contains_key(k)
                        &&& slab_contents(final(self).entries)[k] == slab_contents(
                            old(self).entries,
                        )[k]
                        &&& !(first <= cell_of(timer(slab_contents(final(self).entries), k)) < end)
                    }
                },
            fired_from(old(self)@, final(self)@, fired@, old(self).current_tick),
            final(expired_wakers)@ == old(expired_wakers)@ + wakers_of(old(self)@, fired@),
    {
        let ghost mut fired: Seq<TimerHandle> = Seq::empty();
        let ghost m0 = self@;
        let ghost e0 = slab_contents(self.entries);
        let ghost before = expired_wakers@;
        let ghost now = self.current_tick;
        let ghost counter = self.generation_counter;
        proof {
            assert(m0.remove_keys(fired.to_set()) =~= m0);
            assert(before + wakers_of(m0, fired) =~= before);
        }
        let mut slot: usize = first;
        while slot < end
            invariant
                first <= slot <= end <= SLOTS_PER_LEVEL,
                start <= now,
                self.consistent(start),
                self.current_tick == now,
                self.generation_counter == counter,
                now == old(self).current_tick,
                counter == old(self).generation_counter,
                m0 == old(self)@,
                e0 == slab_contents(old(self).entries),
                before == old(expired_wakers)@,
                forall|k: usize| #[trigger]
                    slab_contents(self.entries).contains_key(k) ==> {
                        ||| timer(slab_contents(self.entries), k).expiration_tick > now
                        ||| {
                            &&& e0.contains_key(k)
                            &&& slab_contents(self.entries)[k] == e0[k]
                            &&& !(first <= cell_of(timer(e0, k)) < slot)
                        }
                    },
                fired_from(m0, self@, fired, now),
                expired_wakers@ == before + wakers_of(m0, fired),
            decreases end - slot,
        {
            let ghost m1 = self@;
            let ghost e1 = slab_contents(self.entries);
            let Ghost(more) = self.process_slot_at_level_0(slot, expired_wakers, Ghost(start));
            proof {
                let e2 = slab_contents(self.entries);
                assert forall|k: usize| #[trigger] e2.contains_key(k) implies {
                    ||| timer(e2, k).expiration_tick > now
                    ||| {
                        &&& e0.contains_key(k)
                        &&& e2[k] == e0[k]
                        &&& !(first <= cell_of(timer(e0, k)) < slot + 1)
                    }
                } by {
                    if timer(e2, k).expiration_tick <= now {
                        assert(e1.contains_key(k));
                    }
                }
                lemma_fired_step(m0, m1, self@, fired, more, now);
                assert(expired_wakers@ =~= before + wakers_of(m0, fired + more));
                fired = fired + more;
            }
            slot += 1;
        }
        Ghost(fired)
    }

    /// Advances the wheel by the given number of ticks and returns the wakers of the timers that
    /// have expired, which leave the wheel.
    pub fn advance(&mut self, ticks: u64) -> (expired: Vec<Waker>)
        requires
            old(self).wf(),
            old(self).tick() + ticks <= u64::MAX,
        ensures
            final(self).wf(),
            final(self).tick() == old(self).tick() + ticks,
            final(self).inserted() == old(self).inserted(),
            ticks == 0 ==> final(self)@ == old(self)@ && expired@.len() == 0,
            ticks > 0 ==> {
                &&& final(self)@ == old(self)@.remove_keys(
                    due(old(self)@, final(self).tick() as int),
                )
                &&& fires(old(self)@, final(self).tick() as int, expired@)
            },
    {
        let mut expired_wakers: Vec<Waker> = Vec::new();
        if ticks == 0 {
            return expired_wakers;
        }
        let start_tick: u64 = self.current_tick;
        let ghost m0 = self@;
        self.current_tick = start_tick + ticks;
        let now: u64 = self.current_tick;
        assert(self.consistent(start_tick));
        let Ghost(f1) = self.cascade_all_levels(&mut expired_wakers, Ghost(start_tick));
        let ghost m1 = self@;
        let ghost e1 = slab_contents(self.entries);
        assert(expired_wakers@ =~= wakers_of(m0, f1));

        let start_slot: usize = (start_tick % 64) as usize;
        let end_slot: usize = (now % 64) as usize;
        let ghost mut f2: Seq<TimerHandle> = Seq::empty();
        let ghost mut f3: Seq<TimerHandle> = Seq::empty();
        let ghost mut m2 = m1;
        proof {
            assert(m1.remove_keys(f3.to_set()) =~= m1);
        }
        if ticks >= 64 {
            // A full turn of level 0: all of its slots are due a look.
            let Ghost(f) = self.process_slots(
                0,
                SLOTS_PER_LEVEL,
                &mut expired_wakers,
                Ghost(start_tick),
            );
            proof {
                f2 = f;
                m2 = self@;
            }
        } else if start_slot <= end_slot {
            let Ghost(f) = self.process_slots(
                start_slot,
                end_slot + 1,
                &mut expired_wakers,
                Ghost(start_tick),
            );
            proof {
                f2 = f;
                m2 = self@;
            }
        } else {
            // The slots passed over wrap round the end of the level.
            let Ghost(f) = self.process_slots(
                start_slot,
                SLOTS_PER_LEVEL,
                &mut expired_wakers,
                Ghost(start_tick),
            );
            proof {
                f2 = f;
                m2 = self@;
            }
            let Ghost(g) = self.process_slots(
                0,
                end_slot + 1,
                &mut expired_wakers,
                Ghost(start_tick),
            );
            proof {
                f3 = g;
            }
        }
        proof {
            let e2 = slab_contents(self.entries);
            assert(m2.remove_keys(Seq::<TimerHandle>::empty().to_set()) =~= m2);
            assert(fired_from(m2, self@, f3, now));
            lemma_fired_step(m0, m1, m2, f1, f2, now);
            lemma_fired_step(m0, m2, self@, f1 + f2, f3, now);
            let fired = f1 + f2 + f3;
            assert(expired_wakers@ =~= wakers_of(m0, fired));
            assert forall|k: usize| #[trigger] e2.contains_key(k) implies timer(
                e2,
                k,
            ).expiration_tick > now by {
                if timer(e2, k).expiration_tick <= now {
                    assert(e1.contains_key(k) && e2[k] == e1[k]);
                    lemma_slot_passed(
                        start_tick as int,
                        now as int,
                        later(timer(e1, k).expiration_tick, start_tick) as int,
                    );
                }
            }
            assert(timely(e2, now, now));
            assert forall|h: TimerHandle| #[trigger] fired.contains(h) <==> due(m0, now as int).contains(
                h,
            ) by {
                if fired.contains(h) {
                    assert(m0.contains_key(h) && m0[h].expiration <= now);
                } else if due(m0, now as int).contains(h) {
                    assert(!fired.to_set().contains(h));
                    assert(self@.contains_key(h) && self@[h] == m0[h]);
                    assert(e2.contains_key(h.slab_index));
                }
            }
            assert(lists(fired, due(m0, now as int)));
            assert(self@ =~= m0.remove_keys(due(m0, now as int)));
        }
        self.refresh_min_expiration();
        expired_wakers
    }
}

/// Advancing in two steps expires the same timers as advancing to the later tick at once, and
/// none of them twice.
pub proof fn law_two_steps_expire_once(timers: Map<TimerHandle, Alarm>, first: int, second: int)
    requires
        first <= second,
    ensures
        ({
            let after_first = timers.remove_keys(due(timers, first));
            &&& after_first.remove_keys(due(after_first, second)) == timers.remove_keys(
                due(timers, second),
            )
            &&& due(timers, first).union(due(after_first, second)) == due(timers, second)
            &&& due(timers, first).disjoint(due(after_first, second))
        }),
{
    let after_first = timers.remove_keys(due(timers, first));
    assert(after_first.remove_keys(due(after_first, second)) =~= timers.remove_keys(
        due(timers, second),
    ));
    assert(due(timers, first).union(due(after_first, second)) =~= due(timers, second));
}

/// Before the earliest expiration tick nothing expires, and from it on something does.
pub proof fn law_nothing_expires_before_the_nearest(
    timers: Map<TimerHandle, Alarm>,
    nearest: u64,
    now: int,
)
    requires
        is_earliest(timers, nearest),
    ensures
        due(timers, now).is_empty() <==> now < nearest,
{
    let h = choose|h: TimerHandle| #[trigger]
        timers.contains_key(h) && timers[h].expiration == nearest;
    assert(timers.contains_key(h));
    if now >= nearest {
        assert(due(timers, now).contains(h));
    } else {
        assert(due(timers, now) =~= Set::empty());
    }
}

/// Removing a timer that was just inserted leaves the other timers as they were.
pub proof fn law_remove_undoes_insert(
    timers: Map<TimerHandle, Alarm>,
    handle: TimerHandle,
    alarm: Alarm,
)
    requires
        !timers.contains_key(handle),
    ensures
        timers.insert(handle, alarm).remove(handle) == timers,
{
    assert(timers.insert(handle, alarm).remove(handle) =~= timers);
}

/// A handle never comes to name a later timer: all handles in use were given out so far, and the
/// next one is none of them.
pub proof fn law_handles_are_not_reused(wheel: TimingWheel, handle: TimerHandle)
    requires
        wheel.wf(),
        wheel@.contains_key(handle),
    ensures
        handle.serial() <= wheel.inserted(),
{
    assert(slab_contents(wheel.entries).contains_key(handle.slab_index));
}

proof fn lemma_slot_width_bound(level: nat)
    ensures
        slot_width(0) == 1,
        level < NUM_LEVELS ==> 0 < slot_width(level) <= 68719476736,
{
    reveal_with_fuel(slot_width, 8);
}

/// A timer is due at its own tick and from then on, and not before.
pub proof fn law_a_timer_is_due_from_its_tick_on(
    timers: Map<TimerHandle, Alarm>,
    now: int,
    handle: TimerHandle,
)
    ensures
        due(timers, now).contains(handle) <==> timers.contains_key(handle)
            && timers[handle].expiration <= now,
{
}

/// All that is due fires and nothing else, each timer once.
pub proof fn law_all_that_is_due_fires(
    timers: Map<TimerHandle, Alarm>,
    now: int,
    wakers: Seq<Waker>,
    handle: TimerHandle,
    i: int,
)
    requires
        fires(timers, now, wakers),
    ensures
        timers.contains_key(handle) && timers[handle].expiration <= now ==> wakers.contains(
            timers[handle].waker,
        ),
        0 <= i < wakers.len() ==> exists|h: TimerHandle| #[trigger]
            timers.contains_key(h) && timers[h].expiration <= now && timers[h].waker == wakers[i],
        wakers.len() == due(timers, now).len(),
{
    let handles = choose|handles: Seq<TimerHandle>| #[trigger]
        lists(handles, due(timers, now)) && wakers == wakers_of(timers, handles);
    if timers.contains_key(handle) && timers[handle].expiration <= now {
        assert(due(timers, now).contains(handle));
        assert(handles.contains(handle));
        let at = choose|at: int| 0 <= at < handles.len() && handles[at] == handle;
        assert(wakers[at] == timers[handle].waker);
    }
    if 0 <= i < wakers.len() {
        assert(handles.contains(handles[i]));
        assert(due(timers, now).contains(handles[i]));
        assert(timers.contains_key(handles[i]));
    }
    assert(handles.to_set() =~= due(timers, now));
    handles.unique_seq_to_set();
}

/// The earliest tick is that of some timer, and none is before it, so that there is only one.
pub proof fn law_the_earliest_is_one(
    timers: Map<TimerHandle, Alarm>,
    tick: u64,
    other: u64,
    handle: TimerHandle,
)
    requires
        is_earliest(timers, tick),
    ensures
        timers.contains_key(handle) ==> tick <= timers[handle].expiration,
        exists|h: TimerHandle| #[trigger] timers.contains_key(h) && timers[h].expiration == tick,
        is_earliest(timers, other) ==> other == tick,
{
}

/// Each level reaches sixty-four times as far as the one below it, and a delay has its place on one
/// level: the lowest that reaches it.
pub proof fn law_each_delay_has_its_level(level: int, other: int, delay: int)
    requires
        0 <= delay,
    ensures
        slot_width(0) == 1,
        slot_width(1) == 64,
        slot_width(2) == 4096,
        slot_width(3) == 262144,
        slot_width(4) == 16777216,
        slot_width(5) == 1073741824,
        slot_width(6) == 68719476736,
        is_level_for(level, delay) && is_level_for(other, delay) ==> level == other,
        is_level_for(0, delay) <==> delay < 64,
        is_level_for(6, delay) <==> delay >= 68719476736,
        is_level_for(level, delay) ==> 0 <= level < 7,
{
    reveal_with_fuel(slot_width, 8);
}

} // verus!
