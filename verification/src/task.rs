//! Where a woken task is queued, and when that has to interrupt the driver.

use std::collections::VecDeque;
use vstd::prelude::*;

verus! {

/// How many woken tasks are run ahead of the main queue.
pub const NEXT_TASK_INLINE_CAP: usize = 8;

/// Where a task goes that is woken.
#[derive(Debug, Clone, Copy, PartialEq, Eq, Structural)]
pub enum Target {
    /// Into the queue that is run first.
    Next,
    /// Into the main queue.
    Main,
    /// Into the queue for other threads.
    Remote,
    /// Nowhere: it is queued, or the runtime is gone.
    Nowhere,
}

/// Where a task goes that is woken.
pub open spec fn wake_goes_to(
    same_thread: bool,
    was_queued: bool,
    next_len: Option<usize>,
    queue_alive: bool,
) -> Target {
    if was_queued {
        Target::Nowhere
    } else if !same_thread {
        if queue_alive {
            Target::Remote
        } else {
            Target::Nowhere
        }
    } else if next_len matches Some(len) && len < NEXT_TASK_INLINE_CAP {
        Target::Next
    } else if queue_alive {
        Target::Main
    } else {
        Target::Nowhere
    }
}

/// Where a task goes that is woken, by whether that happens on the thread that runs it, whether it
/// was queued, how long the queue that is run first is, and whether the other queue is still there.
pub fn wake_target(
    same_thread: bool,
    was_queued: bool,
    next_len: Option<usize>,
    queue_alive: bool,
) -> (target: Target)
    ensures
        target == wake_goes_to(same_thread, was_queued, next_len, queue_alive),
{
    if was_queued {
        return Target::Nowhere;
    }
    if !same_thread {
        return if queue_alive {
            Target::Remote
        } else {
            Target::Nowhere
        };
    }
    let room = match next_len {
        Some(len) => len < NEXT_TASK_INLINE_CAP,
        None => false,
    };
    if room {
        Target::Next
    } else if queue_alive {
        Target::Main
    } else {
        Target::Nowhere
    }
}

/// The queues of tasks that are ready to run, on the thread that runs them.
pub struct ReadyQueues<T> {
    pub next: VecDeque<T>,
    pub main: VecDeque<T>,
}

impl<T> ReadyQueues<T> {
    /// Empty queues.
    pub fn new() -> (queues: Self)
        ensures
            queues.next@.len() == 0,
            queues.main@.len() == 0,
    {
        ReadyQueues { next: VecDeque::new(), main: VecDeque::new() }
    }

    /// Queues a task that was woken on the thread that runs it, unless it is queued. A few tasks
    /// are run ahead of the main queue.
    pub fn enqueue_if_needed(&mut self, queued: &mut bool, task: T)
        ensures
            *final(queued),
            *old(queued) ==> final(self).next@ == old(self).next@ && final(self).main@ == old(
                self,
            ).main@,
            !*old(queued) && old(self).next@.len() < NEXT_TASK_INLINE_CAP ==> final(self).next@
                == old(self).next@.push(task) && final(self).main@ == old(self).main@,
            !*old(queued) && old(self).next@.len() >= NEXT_TASK_INLINE_CAP ==> final(self).next@
                == old(self).next@ && final(self).main@ == old(self).main@.push(task),
    {
        let target = wake_target(true, *queued, Some(self.next.len()), true);
        *queued = true;
        if target == Target::Next {
            self.next.push_back(task);
        } else if target == Target::Main {
            self.main.push_back(task);
        }
    }
}

/// Whether waking a task on another thread has to interrupt the driver: where that waits, and no
/// interrupt is on its way. An interrupt is then on its way.
pub fn remote_interrupt(same_thread: bool, waiting: bool, interrupt_pending: &mut bool) -> (interrupt:
    bool)
    ensures
        interrupt == (!same_thread && waiting && !*old(interrupt_pending)),
        *final(interrupt_pending) == (*old(interrupt_pending) || interrupt),
{
    if !same_thread && waiting && !*interrupt_pending {
        *interrupt_pending = true;
        true
    } else {
        false
    }
}

/// A task is queued once, and as long as there is a queue for it: where it was queued nothing happens,
/// and it is lost only where its queue is gone. It goes ahead of the main queue only on its own thread
/// and only while few do.
pub proof fn law_a_woken_task_is_queued_once(
    same_thread: bool,
    was_queued: bool,
    next_len: Option<usize>,
    queue_alive: bool,
)
    ensures
        ({
            let target = wake_goes_to(same_thread, was_queued, next_len, queue_alive);
            &&& was_queued ==> target is Nowhere
            &&& !was_queued && queue_alive ==> !(target is Nowhere)
            &&& target is Remote <==> !was_queued && !same_thread && queue_alive
            &&& target is Next <==> !was_queued && same_thread && next_len is Some && next_len->0 < 8
            &&& target is Main ==> same_thread && queue_alive && (next_len is None || next_len->0
                >= 8)
        }),
{
}

} // verus!
