//! Waiting for child processes so that none is left a zombie.

use crate::error::Error;
use std::collections::VecDeque;
use vstd::prelude::*;
use vstd::seq_lib::group_to_multiset_ensures;

verus! {

/// `libc::ENOSYS` on Linux.
pub const ENOSYS: i32 = 38;

/// What asking for a child's exit without waiting came to.
#[derive(Debug, Clone, Copy, PartialEq, Eq, Structural)]
pub enum TryWait {
    /// It has exited.
    Exited,
    /// It is running.
    Running,
    /// The question failed.
    Failed,
}

/// Whether the kernel has process descriptors, by what opening one came to: only that the call is
/// not known says that it has none.
pub fn pidfd_available(opened: Result<i32, Error>) -> (available: bool)
    ensures
        available == !(opened matches Err(error) && error == Error::Os(ENOSYS)),
{
    match opened {
        Ok(_) => true,
        Err(error) => !error.is_os(ENOSYS),
    }
}

/// What becomes of a child whose handle is dropped.
#[derive(Debug, Clone, Copy, PartialEq, Eq, Structural)]
pub enum DropStep {
    /// It has exited and is reaped.
    Nothing,
    /// The reaper waits for it.
    Send,
    /// A thread of its own waits for it.
    Thread,
}

/// What becomes of a child whose handle is dropped.
pub fn reap_on_drop(outcome: TryWait, has_reaper: bool) -> (step: DropStep)
    ensures
        step == if outcome == TryWait::Exited {
            DropStep::Nothing
        } else if has_reaper {
            DropStep::Send
        } else {
            DropStep::Thread
        },
{
    match outcome {
        TryWait::Exited => DropStep::Nothing,
        _ => if has_reaper {
            DropStep::Send
        } else {
            DropStep::Thread
        },
    }
}

/// The children that are waited for, each with whoever is to be told.
pub struct ZombieReaper<P> {
    processes: VecDeque<P>,
}

/// Those of the processes that are still running, in order.
pub open spec fn running<P>(processes: Seq<P>, outcomes: Seq<TryWait>) -> Seq<P>
    decreases processes.len(),
{
    if processes.len() == 0 {
        Seq::empty()
    } else {
        let earlier = running(processes.drop_last(), outcomes);
        if outcomes[processes.len() - 1] == TryWait::Running {
            earlier.push(processes.last())
        } else {
            earlier
        }
    }
}

/// Those of the processes that are to be told of, in order.
pub open spec fn settled<P>(processes: Seq<P>, outcomes: Seq<TryWait>) -> Seq<P>
    decreases processes.len(),
{
    if processes.len() == 0 {
        Seq::empty()
    } else {
        let earlier = settled(processes.drop_last(), outcomes);
        if outcomes[processes.len() - 1] == TryWait::Running {
            earlier
        } else {
            earlier.push(processes.last())
        }
    }
}

impl<P> ZombieReaper<P> {
    /// The children that are waited for, in the order they came in.
    pub closed spec fn view(&self) -> Seq<P> {
        self.processes@
    }

    /// No children.
    pub fn new() -> (reaper: Self)
        ensures
            reaper@.len() == 0,
    {
        ZombieReaper { processes: VecDeque::new() }
    }

    /// Takes a child in. One that is not running is handed back to be told of.
    pub fn on_process(&mut self, process: P, outcome: TryWait) -> (done: Option<P>)
        ensures
            match outcome {
                TryWait::Running => done is None && final(self)@ == old(self)@.push(process),
                _ => done == Some(process) && final(self)@ == old(self)@,
            },
    {
        match outcome {
            TryWait::Running => {
                self.processes.push_back(process);
                None
            },
            _ => Some(process),
        }
    }

    /// Hands all children out, to be asked after.
    pub fn take_all(&mut self) -> (all: VecDeque<P>)
        ensures
            all@ == old(self)@,
            final(self)@.len() == 0,
    {
        let mut all: VecDeque<P> = VecDeque::new();
        std::mem::swap(&mut all, &mut self.processes);
        all
    }

    /// Takes children that were asked after back in. Those that are not running are handed back
    /// to be told of.
    pub fn on_signal(&mut self, processes: VecDeque<P>, outcomes: &Vec<TryWait>) -> (done: Vec<P>)
        requires
            processes@.len() == outcomes@.len(),
        ensures
            final(self)@ == old(self)@ + running(processes@, outcomes@),
            done@ == settled(processes@, outcomes@),
    {
        let mut processes = processes;
        let ghost all = processes@;
        let mut done: Vec<P> = Vec::new();
        let mut i: usize = 0;
        proof {
            assert(all.skip(0) =~= all);
            assert(all.take(0) =~= Seq::empty());
            assert(self@ + running(all.take(0), outcomes@) =~= self@);
        }
        while i < outcomes.len()
            invariant
                i <= outcomes@.len(),
                all.len() == outcomes@.len(),
                processes@ == all.skip(i as int),
                self@ == old(self)@ + running(all.take(i as int), outcomes@),
                done@ == settled(all.take(i as int), outcomes@),
            decreases outcomes@.len() - i,
        {
            proof {
                let upto = all.take(i + 1);
                assert(upto.drop_last() =~= all.take(i as int));
                assert(upto.last() == all[i as int]);
            }
            match processes.pop_front() {
                None => {},
                Some(process) => {
                    assert(processes@ =~= all.skip(i + 1));
                    match outcomes[i] {
                        TryWait::Running => {
                            self.processes.push_back(process);
                        },
                        _ => {
                            done.push(process);
                        },
                    }
                },
            }
            assert(self@ =~= old(self)@ + running(all.take(i + 1), outcomes@));
            i += 1;
        }
        assert(all.take(all.len() as int) =~= all);
        done
    }
}

/// Asking after children keeps each either waited for or told of.
pub proof fn law_no_child_is_lost<P>(processes: Seq<P>, outcomes: Seq<TryWait>)
    requires
        processes.len() <= outcomes.len(),
    ensures
        running(processes, outcomes).len() + settled(processes, outcomes).len() == processes.len(),
        running(processes, outcomes).to_multiset().add(settled(processes, outcomes).to_multiset())
            == processes.to_multiset(),
    decreases processes.len(),
{
    broadcast use group_to_multiset_ensures;

    if processes.len() == 0 {
        assert(processes =~= Seq::empty());
        assert(running(processes, outcomes) =~= Seq::<P>::empty());
        assert(running(processes, outcomes).to_multiset().len() == 0);
        assert(running(processes, outcomes).to_multiset().add(
            settled(processes, outcomes).to_multiset(),
        ) =~= processes.to_multiset());
    } else {
        law_no_child_is_lost(processes.drop_last(), outcomes);
        assert(processes.drop_last().push(processes.last()) =~= processes);
        assert(running(processes, outcomes).to_multiset().add(
            settled(processes, outcomes).to_multiset(),
        ) =~= processes.to_multiset());
    }
}

/// Where each child goes is decided by its own outcome: one that is still running is waited for on,
/// and any other is told of. Neither list changes the order.
pub proof fn law_each_child_goes_where_its_outcome_says<P>(
    processes: Seq<P>,
    process: P,
    outcomes: Seq<TryWait>,
)
    ensures
        ({
            let all = processes.push(process);
            let outcome = outcomes[processes.len() as int];
            &&& outcome is Running ==> {
                &&& running(all, outcomes) == running(processes, outcomes).push(process)
                &&& settled(all, outcomes) == settled(processes, outcomes)
            }
            &&& outcome is Exited || outcome is Failed ==> {
                &&& settled(all, outcomes) == settled(processes, outcomes).push(process)
                &&& running(all, outcomes) == running(processes, outcomes)
            }
        }),
        running(Seq::<P>::empty(), outcomes).len() == 0,
        settled(Seq::<P>::empty(), outcomes).len() == 0,
{
    let all = processes.push(process);
    assert(all.drop_last() =~= processes);
}

/// Where all children are still running all are waited for on, in order; where none is, all are told
/// of.
pub proof fn law_children_alike_stay_together<P>(processes: Seq<P>, outcomes: Seq<TryWait>)
    requires
        processes.len() <= outcomes.len(),
    ensures
        (forall|i: int| 0 <= i < processes.len() ==> #[trigger] outcomes[i] is Running) ==> running(
            processes,
            outcomes,
        ) == processes && settled(processes, outcomes).len() == 0,
        (forall|i: int| 0 <= i < processes.len() ==> !(#[trigger] outcomes[i] is Running))
            ==> settled(processes, outcomes) == processes && running(processes, outcomes).len() == 0,
    decreases processes.len(),
{
    if processes.len() > 0 {
        law_children_alike_stay_together(processes.drop_last(), outcomes);
        assert(processes.drop_last().push(processes.last()) =~= processes);
        let last = processes.len() - 1;
        assert(outcomes[last] is Running || !(outcomes[last] is Running));
    } else {
        assert(running(processes, outcomes) =~= processes);
        assert(settled(processes, outcomes) =~= processes);
    }
}

} // verus!
