//! Signals: who listens for which, and who has to be told.

use crate::driver::{ask_same_task, may_answer};
use crate::error::Error;
use rustc_hash::FxHashMap;
use std::task::Waker;
use vstd::prelude::*;

verus! {

/// The hasher of the map of signals.
#[verifier::external_type_specification]
#[verifier::external_body]
pub struct ExFxBuildHasher(rustc_hash::FxBuildHasher);

/// A signal by its number.
#[derive(Clone, Copy, Debug, Eq, PartialEq, Hash, Structural)]
pub struct SignalKind {
    raw: i32,
}

impl SignalKind {
    /// The number of the signal.
    pub closed spec fn number(&self) -> i32 {
        self.raw
    }

    /// The signal of a number.
    pub fn new(raw: i32) -> (kind: Self)
        ensures
            kind.number() == raw,
    {
        SignalKind { raw }
    }

    /// The number of the signal.
    pub fn as_raw(self) -> (raw: i32)
        ensures
            raw == self.number(),
    {
        self.raw
    }

    /// SIGINT on Linux - interrupt signal (Ctrl-C).
    pub fn interrupt() -> (kind: Self)
        ensures
            kind.number() == 2,
    {
        SignalKind { raw: 2 }
    }

    /// SIGTERM on Linux - termination signal.
    pub fn terminate() -> (kind: Self)
        ensures
            kind.number() == 15,
    {
        SignalKind { raw: 15 }
    }

    /// SIGHUP on Linux - hangup signal.
    pub fn hangup() -> (kind: Self)
        ensures
            kind.number() == 1,
    {
        SignalKind { raw: 1 }
    }

    /// SIGQUIT on Linux - quit signal.
    pub fn quit() -> (kind: Self)
        ensures
            kind.number() == 3,
    {
        SignalKind { raw: 3 }
    }

    /// SIGUSR1 on Linux - user-defined signal 1.
    pub fn user_defined1() -> (kind: Self)
        ensures
            kind.number() == 10,
    {
        SignalKind { raw: 10 }
    }

    /// SIGUSR2 on Linux - user-defined signal 2.
    pub fn user_defined2() -> (kind: Self)
        ensures
            kind.number() == 12,
    {
        SignalKind { raw: 12 }
    }

    /// SIGCHLD on Linux - child process terminated or stopped.
    pub fn child() -> (kind: Self)
        ensures
            kind.number() == 17,
    {
        SignalKind { raw: 17 }
    }

    /// SIGALRM on Linux - alarm clock signal.
    pub fn alarm() -> (kind: Self)
        ensures
            kind.number() == 14,
    {
        SignalKind { raw: 14 }
    }

    /// SIGPIPE on Linux - write to pipe with no readers.
    pub fn pipe() -> (kind: Self)
        ensures
            kind.number() == 13,
    {
        SignalKind { raw: 13 }
    }
}

/// A signal that somebody listens for.
pub struct RegisteredSignal {
    /// How often it came, in the bits that are kept.
    pub counter: usize,
    /// Who waits for it.
    pub wakers: Vec<Waker>,
    /// How many listeners there are.
    pub refs: usize,
}

/// `FxHashMap::get_mut`: the value under the key for changing in place, where there is one; what
/// is written through it is what the map then holds under the key.
#[verifier::external_body]
fn signals_get_mut(signals: &mut FxHashMap<i32, RegisteredSignal>, number: i32) -> (entry: Option<
    &mut RegisteredSignal,
>)
    ensures
        match entry {
            Some(e) => {
                &&& old(signals)@.contains_key(number)
                &&& *e == old(signals)@[number]
                &&& final(signals)@ == old(signals)@.insert(number, *final(e))
            },
            None => {
                &&& !old(signals)@.contains_key(number)
                &&& final(signals)@ == old(signals)@
            },
        },
{
    signals.get_mut(&number)
}

/// `FxHashMap::insert`: the map holds the value under the key.
#[verifier::external_body]
fn signals_insert(
    signals: &mut FxHashMap<i32, RegisteredSignal>,
    number: i32,
    entry: RegisteredSignal,
)
    ensures
        final(signals)@ == old(signals)@.insert(number, entry),
{
    signals.insert(number, entry);
}

/// `FxHashMap::remove`: the map holds nothing under the key.
#[verifier::external_body]
fn signals_remove(signals: &mut FxHashMap<i32, RegisteredSignal>, number: i32)
    ensures
        final(signals)@ == old(signals)@.remove(number),
{
    signals.remove(&number);
}

/// What registering a listener calls for.
#[derive(Clone, Copy, Debug, Eq, PartialEq, Structural)]
pub enum RegisterStep {
    /// There is a listener, whose count of the signal the new one starts from.
    Shared(usize),
    /// The handler of the signal has to be installed first.
    Install,
}

/// The wakers with one more: in place of the one at `position`, if that is given.
pub open spec fn with_waker(wakers: Seq<Waker>, position: Option<usize>, waker: Waker) -> Seq<Waker> {
    match position {
        Some(i) => wakers.update(i as int, waker),
        None => wakers.push(waker),
    }
}

/// Puts a waker in place of the one at `position`, or adds it where none is given.
pub fn put_waker(wakers: &mut Vec<Waker>, position: Option<usize>, waker: Waker)
    requires
        position matches Some(i) ==> i < old(wakers)@.len(),
    ensures
        final(wakers)@ == with_waker(old(wakers)@, position, waker),
        position matches Some(i) ==> final(wakers)@ == old(wakers)@.update(i as int, waker),
        position is None ==> final(wakers)@ == old(wakers)@.push(waker),
{
    match position {
        Some(i) => {
            wakers.set(i, waker);
        },
        None => {
            wakers.push(waker);
        },
    }
}

/// Where the first yes among the answers is, if there is any.
pub open spec fn is_place(answers: Seq<bool>, position: Option<usize>) -> bool {
    match position {
        Some(i) => i < answers.len() && answers[i as int] && forall|j: int|
            0 <= j < i ==> !answers[j],
        None => forall|j: int| 0 <= j < answers.len() ==> !answers[j],
    }
}

/// Where the first yes among the answers is, if there is any.
pub fn place_of(answers: &Vec<bool>) -> (position: Option<usize>)
    ensures
        is_place(answers@, position),
        position is None <==> !answers@.contains(true),
        position matches Some(i) ==> i < answers@.len() && answers@[i as int] && forall|j: int|
            0 <= j < i ==> !answers@[j],
{
    let mut i: usize = 0;
    while i < answers.len()
        invariant
            i <= answers@.len(),
            forall|j: int| 0 <= j < i ==> !answers@[j],
        decreases answers@.len() - i,
    {
        if answers[i] {
            assert(answers@[i as int]);
            return Some(i);
        }
        i += 1;
    }
    None
}

/// Adds a waker, where it is already known of each waker whether it wakes the same task: in place
/// of the first one that does.
pub fn register_waker_of(wakers: &mut Vec<Waker>, waker: Waker, answers: &Vec<bool>)
    requires
        answers@.len() == old(wakers)@.len(),
    ensures
        exists|position: Option<usize>| #[trigger]
            is_place(answers@, position) && final(wakers)@ == with_waker(
                old(wakers)@,
                position,
                waker,
            ),
{
    let position = place_of(answers);
    put_waker(wakers, position, waker);
}

/// Asks of each waker whether it is known to wake the same task as `waker`.
fn answers_of(wakers: &Vec<Waker>, waker: &Waker) -> (answers: Vec<bool>)
    ensures
        answers@.len() == wakers@.len(),
        forall|i: int|
            0 <= i < wakers@.len() ==> may_answer(wakers@[i], *waker, #[trigger] answers@[i]),
{
    let mut answers: Vec<bool> = Vec::new();
    let mut i: usize = 0;
    while i < wakers.len()
        invariant
            i <= wakers@.len(),
            answers@.len() == i,
            forall|j: int| 0 <= j < i ==> may_answer(wakers@[j], *waker, #[trigger] answers@[j]),
        decreases wakers@.len() - i,
    {
        answers.push(ask_same_task(&wakers[i], waker));
        i += 1;
    }
    answers
}

/// The place of a waker: that of the first one of which the answer was that it is known to wake the
/// same task, or none where the answer was no of them all.
pub open spec fn is_place_for(wakers: Seq<Waker>, waker: Waker, position: Option<usize>) -> bool {
    match position {
        Some(i) => {
            &&& i < wakers.len()
            &&& may_answer(wakers[i as int], waker, true)
            &&& forall|j: int| 0 <= j < i ==> may_answer(#[trigger] wakers[j], waker, false)
        },
        None => forall|j: int|
            0 <= j < wakers.len() ==> may_answer(#[trigger] wakers[j], waker, false),
    }
}

/// Adds a waker, in place of one that is known to wake the same task.
pub fn register_waker(wakers: &mut Vec<Waker>, waker: Waker)
    ensures
        final(wakers)@ == old(wakers)@.push(waker) || exists|i: int|
            0 <= i < old(wakers)@.len() && final(wakers)@ == #[trigger] old(wakers)@.update(i, waker)
                && may_answer(old(wakers)@[i], waker, true),
        exists|position: Option<usize>| #[trigger]
            is_place_for(old(wakers)@, waker, position) && final(wakers)@ == with_waker(
                old(wakers)@,
                position,
                waker,
            ),
{
    let answers = answers_of(wakers, &waker);
    register_waker_of(wakers, waker, &answers);
    proof {
        let position = choose|position: Option<usize>| #[trigger]
            is_place(answers@, position) && wakers@ == with_waker(old(wakers)@, position, waker);
        assert forall|j: int|
            0 <= j < answers@.len() && !answers@[j] implies may_answer(
            #[trigger] old(wakers)@[j],
            waker,
            false,
        ) by {
            assert(may_answer(old(wakers)@[j], waker, answers@[j]));
        }
        if position is Some {
            let i = position->0 as int;
            assert(may_answer(old(wakers)@[i], waker, answers@[i]));
            assert(wakers@ == old(wakers)@.update(i, waker));
        }
        assert(is_place_for(old(wakers)@, waker, position));
    }
}

/// The signals that somebody listens for.
pub struct Registry {
    signals: FxHashMap<i32, RegisteredSignal>,
}

impl Registry {
    /// The signals, by number.
    pub closed spec fn view(&self) -> Map<i32, RegisteredSignal> {
        self.signals@
    }

    /// Each signal on record has a listener.
    pub open spec fn wf(&self) -> bool {
        forall|n: i32| #[trigger] self@.contains_key(n) ==> self@[n].refs > 0
    }

    /// Nobody listens.
    pub fn new() -> (registry: Self)
        ensures
            registry.wf(),
            registry@.dom().is_empty(),
    {
        Registry { signals: FxHashMap::default() }
    }

    /// Adds a listener. For the first one of a signal the handler has to be installed.
    pub fn register_signal(&mut self, kind: SignalKind) -> (step: RegisterStep)
        requires
            old(self).wf(),
            old(self)@.contains_key(kind.number()) ==> old(self)@[kind.number()].refs < usize::MAX,
        ensures
            final(self).wf(),
            if old(self)@.contains_key(kind.number()) {
                let entry = old(self)@[kind.number()];
                &&& step == RegisterStep::Shared(entry.counter)
                &&& final(self)@ == old(self)@.insert(
                    kind.number(),
                    RegisteredSignal { refs: (entry.refs + 1) as usize, ..entry },
                )
            } else {
                step == RegisterStep::Install && final(self)@ == old(self)@
            },
    {
        match signals_get_mut(&mut self.signals, kind.raw) {
            Some(entry) => {
                entry.refs = entry.refs + 1;
                RegisterStep::Shared(entry.counter)
            },
            None => RegisterStep::Install,
        }
    }

    /// Adds the first listener of a signal, once its handler is installed. Where that failed,
    /// nobody listens.
    pub fn installed(&mut self, kind: SignalKind, result: Result<(), Error>) -> (r: Result<
        usize,
        Error,
    >)
        requires
            old(self).wf(),
        ensures
            final(self).wf(),
            match result {
                Ok(()) => {
                    &&& r == Ok::<usize, Error>(0)
                    &&& final(self)@.dom() == old(self)@.dom().insert(kind.number())
                    &&& final(self)@[kind.number()].counter == 0
                    &&& final(self)@[kind.number()].refs == 1
                    &&& final(self)@[kind.number()].wakers@.len() == 0
                    &&& forall|n: i32|
                        n != kind.number() && old(self)@.contains_key(n) ==> #[trigger] final(self)@[n] == old(self)@[n]
                },
                Err(error) => r == Err::<usize, Error>(error) && final(self)@ == old(self)@,
            },
    {
        match result {
            Ok(()) => {
                signals_insert(
                    &mut self.signals,
                    kind.raw,
                    RegisteredSignal { counter: 0, wakers: Vec::new(), refs: 1 },
                );
                assert(self@.dom() =~= old(self)@.dom().insert(kind.number()));
                Ok(0)
            },
            Err(error) => Err(error),
        }
    }

    /// Drops a listener. Returns whether it was the last one, so that the handler that was there
    /// before has to be put back.
    pub fn unregister_signal(&mut self, kind: SignalKind) -> (restore: bool)
        requires
            old(self).wf(),
        ensures
            final(self).wf(),
            restore == (old(self)@.contains_key(kind.number()) && old(self)@[kind.number()].refs
                == 1),
            final(self)@ == if !old(self)@.contains_key(kind.number()) {
                old(self)@
            } else if restore {
                old(self)@.remove(kind.number())
            } else {
                let entry = old(self)@[kind.number()];
                old(self)@.insert(
                    kind.number(),
                    RegisteredSignal { refs: (entry.refs - 1) as usize, ..entry },
                )
            },
    {
        let mut last = false;
        match signals_get_mut(&mut self.signals, kind.raw) {
            None => {},
            Some(entry) => {
                if entry.refs > 1 {
                    entry.refs = entry.refs - 1;
                } else {
                    last = true;
                }
            },
        }
        if last {
            signals_remove(&mut self.signals, kind.raw);
            assert(self@ =~= old(self)@.remove(kind.number()));
        }
        proof {
            assert forall|n: i32| #[trigger] self@.contains_key(n) implies self@[n].refs > 0 by {
                assert(old(self)@.contains_key(n));
            }
        }
        last
    }

    /// Counts a signal that came, and returns who waits for it. A signal that nobody listens for
    /// is passed over.
    pub fn dispatch_signal(&mut self, number: i32) -> (wakers: Vec<Waker>)
        requires
            old(self).wf(),
        ensures
            final(self).wf(),
            if old(self)@.contains_key(number) {
                let entry = old(self)@[number];
                &&& wakers == entry.wakers
                &&& final(self)@.dom() == old(self)@.dom()
                &&& final(self)@[number].counter == next_count(entry.counter)
                &&& entry.counter < usize::MAX ==> final(self)@[number].counter == entry.counter + 1
                &&& entry.counter == usize::MAX ==> final(self)@[number].counter == 0
                &&& final(self)@[number].refs == entry.refs
                &&& final(self)@[number].wakers@.len() == 0
                &&& forall|n: i32|
                    n != number && old(self)@.contains_key(n) ==> #[trigger] final(self)@[n]
                        == old(self)@[n]
            } else {
                wakers@.len() == 0 && final(self)@ == old(self)@
            },
    {
        let mut wakers: Vec<Waker> = Vec::new();
        match signals_get_mut(&mut self.signals, number) {
            Some(entry) => {
                entry.counter = entry.counter.wrapping_add(1);
                std::mem::swap(&mut wakers, &mut entry.wakers);
            },
            None => {},
        }
        assert(old(self)@.contains_key(number) ==> self@.dom() =~= old(self)@.dom());
        wakers
    }
}

/// The count after another signal.
pub open spec fn next_count(counter: usize) -> usize {
    if counter == usize::MAX {
        0
    } else {
        (counter + 1) as usize
    }
}

/// A listener for a signal.
pub struct Signal {
    kind: SignalKind,
    last_seen: usize,
}

impl Signal {
    /// The signal.
    pub closed spec fn listens_for(&self) -> SignalKind {
        self.kind
    }

    /// The count of the signal that the listener knows.
    pub closed spec fn seen(&self) -> usize {
        self.last_seen
    }

    /// A listener that knows the signals counted so far.
    pub fn new(kind: SignalKind, counter: usize) -> (signal: Self)
        ensures
            signal.listens_for() == kind,
            signal.seen() == counter,
    {
        Signal { kind, last_seen: counter }
    }

    /// The signal.
    pub fn kind(&self) -> (kind: SignalKind)
        ensures
            kind == self.listens_for(),
    {
        self.kind
    }

    /// Whether a signal came that the listener does not know. Where none did, the waker is told
    /// of the next one.
    pub fn poll_recv(&mut self, registry: &mut Registry, waker: Waker) -> (ready: bool)
        requires
            old(registry).wf(),
            old(registry)@.contains_key(old(self).listens_for().number()),
        ensures
            final(registry).wf(),
            final(self).listens_for() == old(self).listens_for(),
            ({
                let number = old(self).listens_for().number();
                let entry = old(registry)@[number];
                &&& ready == (entry.counter != old(self).seen())
                &&& final(self).seen() == entry.counter
                &&& ready ==> final(registry)@ == old(registry)@
                &&& !ready ==> {
                    let after = final(registry)@[number];
                    &&& final(registry)@.dom() == old(registry)@.dom()
                    &&& after.counter == entry.counter
                    &&& after.refs == entry.refs
                    &&& exists|position: Option<usize>| #[trigger]
                        is_place_for(entry.wakers@, waker, position) && after.wakers@
                            == with_waker(entry.wakers@, position, waker)
                    &&& forall|n: i32|
                        n != number && old(registry)@.contains_key(n) ==> #[trigger] final(registry)@[n] == old(registry)@[n]
                }
            }),
    {
        let mut ready = false;
        match signals_get_mut(&mut registry.signals, self.kind.raw) {
            Some(entry) => {
                if entry.counter != self.last_seen {
                    self.last_seen = entry.counter;
                    ready = true;
                } else {
                    register_waker(&mut entry.wakers, waker);
                }
            },
            None => {},
        }
        proof {
            if ready {
                assert(registry@ =~= old(registry)@);
            } else {
                assert(registry@.dom() =~= old(registry)@.dom());
            }
        }
        ready
    }
}

/// `CTRL_C_EVENT` on Windows.
pub const CTRL_C_EVENT: u32 = 0;

/// What a console has of Ctrl-C, where the system knows no other signals: how often it came, in the
/// bits that are kept, and who waits for it.
pub struct Console {
    counter: usize,
    wakers: Vec<Waker>,
}

impl Console {
    /// How often Ctrl-C came.
    pub closed spec fn count(&self) -> usize {
        self.counter
    }

    /// Who waits for it.
    pub closed spec fn waiting(&self) -> Seq<Waker> {
        self.wakers@
    }

    /// It has not come, and nobody waits.
    pub fn new() -> (console: Self)
        ensures
            console.count() == 0,
            console.waiting().len() == 0,
    {
        Console { counter: 0, wakers: Vec::new() }
    }

    /// Handles an event of the console. Returns whether it was Ctrl-C, which no other handler gets
    /// to see, and who has to be told.
    pub fn handle(&mut self, event: u32) -> (r: (bool, Vec<Waker>))
        ensures
            r.0 == (event == CTRL_C_EVENT),
            if event == CTRL_C_EVENT {
                &&& r.1@ == old(self).waiting()
                &&& final(self).count() == next_count(old(self).count())
                &&& old(self).count() < usize::MAX ==> final(self).count() == old(self).count() + 1
                &&& old(self).count() == usize::MAX ==> final(self).count() == 0
                &&& final(self).waiting().len() == 0
            } else {
                &&& r.1@.len() == 0
                &&& final(self).count() == old(self).count()
                &&& final(self).waiting() == old(self).waiting()
            },
    {
        let mut wakers: Vec<Waker> = Vec::new();
        if event != CTRL_C_EVENT {
            return (false, wakers);
        }
        self.counter = self.counter.wrapping_add(1);
        std::mem::swap(&mut wakers, &mut self.wakers);
        (true, wakers)
    }
}

/// A listener for Ctrl-C on a console.
pub struct ConsoleCtrlC {
    last_seen: usize,
}

impl ConsoleCtrlC {
    /// The count that the listener knows.
    pub closed spec fn seen(&self) -> usize {
        self.last_seen
    }

    /// A listener that knows what came so far.
    pub fn new(console: &Console) -> (listener: Self)
        ensures
            listener.seen() == console.count(),
    {
        ConsoleCtrlC { last_seen: console.counter }
    }

    /// Whether Ctrl-C came without the listener knowing. Where it did not, the waker is told when it
    /// does.
    pub fn poll_recv(&mut self, console: &mut Console, waker: Waker) -> (ready: bool)
        ensures
            ready == (old(console).count() != old(self).seen()),
            final(self).seen() == old(console).count(),
            final(console).count() == old(console).count(),
            ready ==> final(console).waiting() == old(console).waiting(),
            !ready ==> exists|position: Option<usize>| #[trigger]
                is_place_for(old(console).waiting(), waker, position) && final(console).waiting()
                    == with_waker(old(console).waiting(), position, waker),
    {
        if console.counter != self.last_seen {
            self.last_seen = console.counter;
            return true;
        }
        let ghost before = console.wakers@;
        register_waker(&mut console.wakers, waker);
        proof {
            let position = choose|position: Option<usize>| #[trigger]
                is_place_for(before, waker, position) && console.wakers@ == with_waker(
                    before,
                    position,
                    waker,
                );
            assert(is_place_for(old(console).waiting(), waker, position));
        }
        false
    }
}

/// The bytes of signal numbers, put together again from what comes through a pipe.
pub struct Framer {
    pending: Vec<u8>,
}

/// The bytes of frames, one after the other.
pub open spec fn unframed(frames: Seq<[u8; 4]>) -> Seq<u8>
    decreases frames.len(),
{
    if frames.len() == 0 {
        Seq::empty()
    } else {
        unframed(frames.drop_last()) + frames.last()@
    }
}

impl Framer {
    /// The bytes of a number that is not complete.
    pub closed spec fn pending(&self) -> Seq<u8> {
        self.pending@
    }

    pub open spec fn wf(&self) -> bool {
        self.pending().len() < 4
    }

    /// No bytes.
    pub fn new() -> (framer: Self)
        ensures
            framer.wf(),
            framer.pending().len() == 0,
    {
        Framer { pending: Vec::new() }
    }

    /// Takes bytes in and returns the numbers that are complete, four bytes each.
    pub fn feed(&mut self, bytes: &Vec<u8>) -> (frames: Vec<[u8; 4]>)
        requires
            old(self).wf(),
        ensures
            final(self).wf(),
            unframed(frames@) + final(self).pending() == old(self).pending() + bytes@,
    {
        let mut frames: Vec<[u8; 4]> = Vec::new();
        let ghost before = self.pending();
        let mut i: usize = 0;
        assert(unframed(frames@) + self.pending() =~= before + bytes@.take(0));
        while i < bytes.len()
            invariant
                i <= bytes@.len(),
                self.wf(),
                before == old(self).pending(),
                unframed(frames@) + self.pending() == before + bytes@.take(i as int),
            decreases bytes@.len() - i,
        {
            let ghost f0 = unframed(frames@);
            let ghost p0 = self.pending();
            self.pending.push(bytes[i]);
            proof {
                assert(bytes@.take(i + 1) =~= bytes@.take(i as int).push(bytes@[i as int]));
                assert(f0 + self.pending@ =~= before + bytes@.take(i + 1)) by {
                    assert(f0 + p0.push(bytes@[i as int]) =~= (f0 + p0).push(bytes@[i as int]));
                    assert((before + bytes@.take(i as int)).push(bytes@[i as int]) =~= before
                        + bytes@.take(i + 1));
                }
            }
            if self.pending.len() == 4 {
                let raw: [u8; 4] = [
                    self.pending[0],
                    self.pending[1],
                    self.pending[2],
                    self.pending[3],
                ];
                let ghost full = self.pending@;
                let ghost frames0 = frames@;
                self.pending.clear();
                frames.push(raw);
                proof {
                    assert(raw@ =~= full);
                    assert(frames@.drop_last() =~= frames0);
                    assert(unframed(frames@) + self.pending() =~= f0 + full);
                }
            }
            i += 1;
        }
        assert(bytes@.take(bytes@.len() as int) =~= bytes@);
        frames
    }
}

/// No two of the wakers wake the same task, by the relation `same`.
pub open spec fn one_per_task(wakers: Seq<Waker>, same: spec_fn(Waker, Waker) -> bool) -> bool {
    forall|i: int, j: int|
        0 <= i < wakers.len() && 0 <= j < wakers.len() && i != j ==> !same(
            #[trigger] wakers[i],
            #[trigger] wakers[j],
        )
}

/// `will_wake` tells which wakers wake the same task, by the relation `same`: the relation is an
/// equivalence, and each answer goes by it.
pub open spec fn is_told_by_will_wake(same: spec_fn(Waker, Waker) -> bool) -> bool {
    &&& forall|a: Waker| #[trigger] same(a, a)
    &&& forall|a: Waker, b: Waker| #[trigger] same(a, b) ==> same(b, a)
    &&& forall|a: Waker, b: Waker, c: Waker| #[trigger]
        same(a, b) && #[trigger] same(b, c) ==> same(a, c)
    &&& forall|a: Waker, b: Waker, yes: bool| #[trigger] may_answer(a, b, yes) ==> yes == same(a, b)
}

/// Registering a waker keeps one waker per task, where `will_wake` tells which wakers wake the same
/// task: exactly one in the list wakes the task of the new one afterwards, no two wake the same task,
/// the others stay where they were, and the list grows just where none did before.
pub proof fn law_one_waker_per_task(
    wakers: Seq<Waker>,
    waker: Waker,
    same: spec_fn(Waker, Waker) -> bool,
    position: Option<usize>,
)
    requires
        is_told_by_will_wake(same),
        one_per_task(wakers, same),
        is_place_for(wakers, waker, position),
        wakers.len() < usize::MAX,
    ensures
        ({
            let after = with_waker(wakers, position, waker);
            let place = match position {
                Some(i) => i as int,
                None => wakers.len() as int,
            };
            &&& one_per_task(after, same)
            &&& 0 <= place < after.len() && after[place] == waker
            &&& forall|i: int|
                0 <= i < after.len() ==> (same(#[trigger] after[i], waker) <==> i == place)
            &&& forall|i: int|
                0 <= i < wakers.len() && i != place ==> #[trigger] after[i] == wakers[i]
            &&& after.len() == wakers.len() + if exists|i: int|
                0 <= i < wakers.len() && same(#[trigger] wakers[i], waker) {
                0int
            } else {
                1
            }
        }),
{
    let after = with_waker(wakers, position, waker);
    let place = match position {
        Some(i) => i as int,
        None => wakers.len() as int,
    };
    assert(position is Some ==> same(wakers[place], waker));
    assert forall|i: int| 0 <= i < wakers.len() && i != place implies !same(wakers[i], waker)
        && !same(waker, wakers[i]) by {
        if same(waker, wakers[i]) {
            assert(same(wakers[i], waker));
        }
        if same(wakers[i], waker) {
            if position is Some {
                assert(same(waker, wakers[place]));
                assert(same(wakers[i], wakers[place]));
            } else {
                assert(may_answer(wakers[i], waker, false));
            }
        }
    }
    assert(same(waker, waker));
}

/// Registering a waker loses no other task's: whatever `will_wake` has answered, the only waker that
/// leaves the list is one of which it said that it wakes the same task as the new one.
pub proof fn law_no_other_waker_is_lost(
    wakers: Seq<Waker>,
    waker: Waker,
    position: Option<usize>,
    i: int,
)
    requires
        is_place_for(wakers, waker, position),
        0 <= i < wakers.len(),
        !may_answer(wakers[i], waker, true),
    ensures
        with_waker(wakers, position, waker)[i] == wakers[i],
        with_waker(wakers, position, waker).contains(waker),
{
    let after = with_waker(wakers, position, waker);
    match position {
        Some(p) => {
            assert(after[p as int] == waker);
        },
        None => {
            assert(after[wakers.len() as int] == waker);
        },
    }
}

/// The count after so many more signals.
pub open spec fn count_after(counter: usize, signals: nat) -> usize
    decreases signals,
{
    if signals == 0 {
        counter
    } else {
        next_count(count_after(counter, (signals - 1) as nat))
    }
}

/// A count goes up by one with each signal, and starts over where it cannot be told any more.
pub proof fn law_every_signal_counts(counter: usize, signals: nat)
    ensures
        count_after(counter, signals) == (counter + signals) % (usize::MAX + 1),
    decreases signals,
{
    if signals > 0 {
        law_every_signal_counts(counter, (signals - 1) as nat);
        let full = usize::MAX + 1;
        let before = counter + signals - 1;
        vstd::arithmetic::div_mod::lemma_add_mod_noop(before, 1, full);
        vstd::arithmetic::div_mod::lemma_small_mod(1, full as nat);
        if before % full == usize::MAX {
            vstd::arithmetic::div_mod::lemma_mod_self_0(full);
        } else {
            vstd::arithmetic::div_mod::lemma_small_mod((before % full + 1) as nat, full as nat);
        }
    } else {
        vstd::arithmetic::div_mod::lemma_small_mod(counter as nat, (usize::MAX + 1) as nat);
    }
}

/// However many signals come before a listener looks, it notices: the count is another than the one
/// it knows, unless as many came as there are counts.
pub proof fn law_signals_are_noticed(counter: usize, signals: nat)
    requires
        1 <= signals <= usize::MAX,
    ensures
        count_after(counter, signals) != counter,
{
    law_every_signal_counts(counter, signals);
    let full = usize::MAX + 1;
    if counter + signals < full {
        vstd::arithmetic::div_mod::lemma_small_mod((counter + signals) as nat, full as nat);
    } else {
        vstd::arithmetic::div_mod::lemma_mod_sub_multiples_vanish(counter + signals, full);
        vstd::arithmetic::div_mod::lemma_small_mod(
            (counter + signals - full) as nat,
            full as nat,
        );
    }
}

/// Every listener notices a signal that comes while it knows all the ones before.
pub proof fn law_a_signal_is_noticed(counter: usize)
    ensures
        next_count(counter) != counter,
{
}

/// Numbers come out of the pipe as they went in: the frames fed in are the frames that come out.
pub proof fn law_frames_are_found_again(frames: Seq<[u8; 4]>, found: Seq<[u8; 4]>, rest: Seq<u8>)
    requires
        unframed(found) + rest == unframed(frames),
        rest.len() < 4,
    ensures
        found == frames,
        rest.len() == 0,
{
    lemma_unframed_len(frames);
    lemma_unframed_len(found);
    assert((unframed(found) + rest).len() == unframed(found).len() + rest.len());
    assert(found.len() == frames.len());
    assert(rest =~= Seq::empty());
    assert(unframed(found) + rest =~= unframed(found));
    lemma_unframed_injective(frames, found);
}

proof fn lemma_unframed_len(frames: Seq<[u8; 4]>)
    ensures
        unframed(frames).len() == 4 * frames.len(),
    decreases frames.len(),
{
    if frames.len() > 0 {
        lemma_unframed_len(frames.drop_last());
    }
}

proof fn lemma_unframed_injective(a: Seq<[u8; 4]>, b: Seq<[u8; 4]>)
    requires
        a.len() == b.len(),
        unframed(a) == unframed(b),
    ensures
        a == b,
    decreases a.len(),
{
    if a.len() > 0 {
        lemma_unframed_len(a.drop_last());
        lemma_unframed_len(b.drop_last());
        let n = unframed(a.drop_last()).len() as int;
        assert(unframed(a.drop_last()) =~= unframed(a).take(n));
        assert(unframed(b.drop_last()) =~= unframed(b).take(n));
        lemma_unframed_injective(a.drop_last(), b.drop_last());
        assert(a.last()@ =~= unframed(a).skip(n));
        assert(b.last()@ =~= unframed(b).skip(n));
        assert(a.last() =~= b.last());
        assert(a =~= a.drop_last().push(a.last()));
        assert(b =~= b.drop_last().push(b.last()));
    } else {
        assert(a =~= b);
    }
}

/// A waker takes the place of another only where that is known to wake the same task, and comes last
/// where none is.
pub proof fn law_a_waker_finds_its_place(wakers: Seq<Waker>, waker: Waker, i: usize)
    ensures
        is_place_for(wakers, waker, Some(i)) ==> i < wakers.len() && may_answer(
            wakers[i as int],
            waker,
            true,
        ),
        is_place_for(wakers, waker, None) ==> forall|j: int|
            0 <= j < wakers.len() ==> may_answer(#[trigger] wakers[j], waker, false),
        i < wakers.len() ==> with_waker(wakers, Some(i), waker) == wakers.update(i as int, waker),
        with_waker(wakers, None, waker) == wakers.push(waker),
{
}

/// The place among the answers is that of the first yes, and there is none just where all are no.
pub proof fn law_the_first_yes_counts(answers: Seq<bool>, i: usize)
    ensures
        is_place(answers, None) <==> !answers.contains(true),
        is_place(answers, Some(i)) ==> i < answers.len() && answers[i as int] && !answers.take(
            i as int,
        ).contains(true),
{
    if is_place(answers, None) && answers.contains(true) {
        let j = choose|j: int| 0 <= j < answers.len() && answers[j] == true;
        assert(!answers[j]);
    }
    if !answers.contains(true) {
        assert forall|j: int| 0 <= j < answers.len() implies !answers[j] by {
            if answers[j] {
                assert(answers.contains(true));
            }
        }
    }
    if is_place(answers, Some(i)) {
        let earlier = answers.take(i as int);
        if earlier.contains(true) {
            let j = choose|j: int| 0 <= j < earlier.len() && earlier[j] == true;
            assert(answers[j]);
        }
    }
}

/// Frames lie one behind the other, four bytes each, and each with its bytes in their own order.
pub proof fn law_frames_are_their_bytes(frames: Seq<[u8; 4]>, i: int, j: int)
    requires
        0 <= i < frames.len(),
        0 <= j < 4,
    ensures
        unframed(frames).len() == 4 * frames.len(),
        unframed(frames)[4 * i + j] == frames[i]@[j],
    decreases frames.len(),
{
    lemma_unframed_len(frames);
    lemma_unframed_len(frames.drop_last());
    if i < frames.len() - 1 {
        law_frames_are_their_bytes(frames.drop_last(), i, j);
    }
}

} // verus!
