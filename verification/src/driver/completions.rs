//! Operations submitted for completion: who waits for each, and the result once it is there.

use crate::driver::{holds_same_task, is_answer, offer_waiter, offered};
use crate::slots::{
    slab_contents, slab_get, slab_get_mut, slab_insert, slab_new, slab_next_key, slab_try_remove,
    slab_vacant_key, Record,
};
use slab::Slab;
use std::task::Waker;
use vstd::prelude::*;

verus! {

/// An operation that was submitted for completion.
pub struct Completion {
    pub waiter: Option<Waker>,
    pub completed: Option<i32>,
    /// Whether nobody will ask for the result.
    pub ignored: bool,
}

/// An operation that was just submitted.
pub open spec fn in_flight(waker: Waker) -> Completion {
    Completion { waiter: Some(waker), completed: None, ignored: false }
}

/// The operations once the result of one has come: it is put on record, or the operation leaves
/// where nobody will ask for it.
pub open spec fn completed(operations: Map<usize, Completion>, token: usize, result: i32) -> Map<
    usize,
    Completion,
> {
    if !operations.contains_key(token) {
        operations
    } else if operations[token].ignored {
        operations.remove(token)
    } else {
        operations.insert(
            token,
            Completion { waiter: None, completed: Some(result), ignored: false },
        )
    }
}

/// The result of an operation, once there is one.
pub open spec fn result_of(operations: Map<usize, Completion>, token: usize) -> Option<i32> {
    if operations.contains_key(token) {
        operations[token].completed
    } else {
        None
    }
}

/// Who waits for an operation.
pub open spec fn waiter_in(operations: Map<usize, Completion>, token: usize) -> Option<Waker> {
    if operations.contains_key(token) {
        operations[token].waiter
    } else {
        None
    }
}

/// The operations once a task waits for one of them.
pub open spec fn awaiting(
    operations: Map<usize, Completion>,
    token: usize,
    waker: Waker,
    same_task: bool,
) -> Map<usize, Completion> {
    if operations.contains_key(token) {
        let c = operations[token];
        operations.insert(
            token,
            Completion { waiter: offered(c.waiter, waker, same_task), ..c },
        )
    } else {
        operations
    }
}

/// The operations once nobody will ask for the result of one of them.
pub open spec fn ignoring(operations: Map<usize, Completion>, token: usize) -> Map<
    usize,
    Completion,
> {
    if operations.contains_key(token) {
        operations.insert(token, Completion { ignored: true, ..operations[token] })
    } else {
        operations
    }
}

spec fn completions_only(e: Map<usize, Record>) -> bool {
    forall|k: usize| #[trigger] e.contains_key(k) ==> e[k] is Completion
}

spec fn operations(e: Map<usize, Record>) -> Map<usize, Completion> {
    e.map_values(|r: Record| r->Completion_0)
}

/// The operations of a driver.
pub struct Completions {
    slab: Slab<Record>,
}

impl Completions {
    pub closed spec fn wf(&self) -> bool {
        completions_only(slab_contents(self.slab))
    }

    /// The operations, by token.
    pub closed spec fn view(&self) -> Map<usize, Completion> {
        operations(slab_contents(self.slab))
    }

    /// The token that the next operation gets.
    pub closed spec fn next_token(&self) -> usize {
        slab_next_key(self.slab)
    }

    /// No operations.
    pub fn new() -> (r: Self)
        ensures
            r.wf(),
            r@.dom().is_empty(),
    {
        Completions { slab: slab_new() }
    }

    /// The token that the next operation gets.
    pub fn vacant_token(&self) -> (token: usize)
        requires
            self.wf(),
        ensures
            token == self.next_token(),
            token < isize::MAX,
            !self@.contains_key(token),
    {
        slab_vacant_key(&self.slab)
    }

    /// The operation under a token, for changing in place.
    fn operation_mut(&mut self, token: usize) -> (operation: Option<&mut Completion>)
        requires
            old(self).wf(),
        ensures
            final(self).wf(),
            match operation {
                Some(c) => {
                    &&& old(self)@.contains_key(token)
                    &&& *c == old(self)@[token]
                    &&& final(self)@ == old(self)@.insert(token, *final(c))
                },
                None => {
                    &&& !old(self)@.contains_key(token)
                    &&& final(self)@ == old(self)@
                },
            },
    {
        match slab_get_mut(&mut self.slab, token) {
            Some(Record::Completion(operation)) => Some(operation),
            _ => None,
        }
    }

    /// Puts an operation on record and returns its token.
    pub fn submit(&mut self, waker: Waker) -> (token: usize)
        requires
            old(self).wf(),
        ensures
            final(self).wf(),
            token == old(self).next_token(),
            token < isize::MAX,
            !old(self)@.contains_key(token),
            final(self)@ == old(self)@.insert(token, in_flight(waker)),
    {
        let token: usize = slab_insert(
            &mut self.slab,
            Record::Completion(Completion { waiter: Some(waker), completed: None, ignored: false }),
        );
        assert(self@ =~= old(self)@.insert(token, in_flight(waker)));
        token
    }

    /// Takes an operation off the record.
    pub fn withdraw(&mut self, token: usize)
        requires
            old(self).wf(),
        ensures
            final(self).wf(),
            final(self)@ == old(self)@.remove(token),
    {
        let _ = slab_try_remove(&mut self.slab, token);
        assert(self@ =~= old(self)@.remove(token));
    }

    /// Takes note of an operation that is done. Returns the waiter to wake, and whether the
    /// operation has left the record because nobody will ask for its result.
    pub fn complete(&mut self, token: usize, result: i32) -> (r: (Option<Waker>, bool))
        requires
            old(self).wf(),
        ensures
            final(self).wf(),
            final(self)@ == completed(old(self)@, token, result),
            old(self)@.contains_key(token) && !old(self)@[token].ignored ==> {
                &&& final(self)@.contains_key(token)
                &&& final(self)@[token].completed == Some(result)
                &&& final(self)@[token].waiter is None
            },
            old(self)@.contains_key(token) && old(self)@[token].ignored
                ==> !final(self)@.contains_key(token),
            r == if old(self)@.contains_key(token) {
                (old(self)@[token].waiter, old(self)@[token].ignored)
            } else {
                (None::<Waker>, false)
            },
    {
        let mut remove = false;
        let waiter = match self.operation_mut(token) {
            Some(operation) => {
                operation.completed = Some(result);
                remove = operation.ignored;
                operation.waiter.take()
            },
            None => None,
        };
        if remove {
            self.withdraw(token);
        }
        assert(self@ =~= completed(old(self)@, token, result));
        (waiter, remove)
    }

    /// Takes the result of an operation, once there is one.
    pub fn get_completion_result(&mut self, token: usize) -> (result: Option<i32>)
        requires
            old(self).wf(),
        ensures
            final(self).wf(),
            result == result_of(old(self)@, token),
            final(self)@ == if result is Some {
                old(self)@.remove(token)
            } else {
                old(self)@
            },
    {
        let result: Option<i32> = match slab_get(&self.slab, token) {
            Some(Record::Completion(operation)) => operation.completed,
            _ => None,
        };
        if result.is_some() {
            self.withdraw(token);
        }
        result
    }

    /// Who waits for an operation.
    pub fn waiter_of(&self, token: usize) -> (waiter: Option<&Waker>)
        requires
            self.wf(),
        ensures
            match waiter {
                Some(w) => waiter_in(self@, token) == Some(*w),
                None => waiter_in(self@, token) is None,
            },
    {
        match slab_get(&self.slab, token) {
            Some(Record::Completion(operation)) => operation.waiter.as_ref(),
            _ => None,
        }
    }

    /// Has a task wait for an operation, where it is already known whether the waker now waiting
    /// wakes the same task.
    pub fn set_completion_waker_of(&mut self, token: usize, waker: Waker, same_task: bool)
        requires
            old(self).wf(),
        ensures
            final(self).wf(),
            final(self)@ == awaiting(old(self)@, token, waker, same_task),
    {
        match self.operation_mut(token) {
            Some(operation) => {
                offer_waiter(&mut operation.waiter, waker, same_task);
            },
            None => {},
        }
        assert(self@ =~= awaiting(old(self)@, token, waker, same_task));
    }

    /// Has a task wait for an operation.
    pub fn set_completion_waker(&mut self, token: usize, waker: Waker)
        requires
            old(self).wf(),
        ensures
            final(self).wf(),
            exists|same_task: bool|
                is_answer(waiter_in(old(self)@, token), waker, same_task) && final(self)@
                    == #[trigger] awaiting(old(self)@, token, waker, same_task),
    {
        let same_task = holds_same_task(self.waiter_of(token), &waker);
        self.set_completion_waker_of(token, waker, same_task);
    }

    /// Has the result of an operation dropped when it comes. Returns whether the operation is on
    /// record.
    pub fn ignore_completion(&mut self, token: usize) -> (ignored: bool)
        requires
            old(self).wf(),
        ensures
            final(self).wf(),
            ignored == old(self)@.contains_key(token),
            final(self)@ == ignoring(old(self)@, token),
    {
        let ignored = match self.operation_mut(token) {
            Some(operation) => {
                operation.ignored = true;
                true
            },
            None => false,
        };
        assert(self@ =~= ignoring(old(self)@, token));
        ignored
    }
}

/// The result that comes in for an operation is what asking for it then gives, and asking takes
/// it off the record.
pub proof fn law_a_result_is_given_once(operations: Map<usize, Completion>, token: usize, result: i32)
    requires
        operations.contains_key(token),
        !operations[token].ignored,
    ensures
        result_of(completed(operations, token, result), token) == Some(result),
        result_of(completed(operations, token, result).remove(token), token) is None,
{
}

/// A result that comes in touches no other operation.
pub proof fn law_a_result_is_for_its_operation(
    operations: Map<usize, Completion>,
    token: usize,
    result: i32,
    other: usize,
)
    requires
        other != token,
    ensures
        completed(operations, token, result).contains_key(other) == operations.contains_key(other),
        operations.contains_key(other) ==> completed(operations, token, result)[other]
            == operations[other],
{
}

/// An operation that nobody will ask for is gone once its result comes in.
pub proof fn law_an_ignored_operation_leaves(
    operations: Map<usize, Completion>,
    token: usize,
    result: i32,
)
    ensures
        completed(ignoring(operations, token), token, result) == operations.remove(token),
{
    assert(completed(ignoring(operations, token), token, result) =~= operations.remove(token));
}

/// Withdrawing an operation that was just submitted leaves the others as they were.
pub proof fn law_withdraw_undoes_submit(
    operations: Map<usize, Completion>,
    token: usize,
    waker: Waker,
)
    requires
        !operations.contains_key(token),
    ensures
        operations.insert(token, in_flight(waker)).remove(token) == operations,
{
    assert(operations.insert(token, in_flight(waker)).remove(token) =~= operations);
}

/// An operation that was just submitted has no result yet, and the task that submitted it waits.
pub proof fn law_an_operation_starts_without_a_result(
    operations: Map<usize, Completion>,
    token: usize,
    waker: Waker,
)
    ensures
        ({
            let now = operations.insert(token, in_flight(waker));
            &&& result_of(now, token) is None
            &&& waiter_in(now, token) == Some(waker)
            &&& !now[token].ignored
        }),
{
}

/// A result wakes once: nobody waits for an operation any more that has one.
pub proof fn law_a_result_wakes_once(
    operations: Map<usize, Completion>,
    token: usize,
    result: i32,
)
    ensures
        waiter_in(completed(operations, token, result), token) is None,
        completed(operations, token, result).contains_key(token) ==> {
            &&& operations.contains_key(token)
            &&& !operations[token].ignored
        },
{
}

/// Waiting for an operation changes who waits for it, and nothing else.
pub proof fn law_waiting_changes_the_waiter_only(
    operations: Map<usize, Completion>,
    token: usize,
    waker: Waker,
    same_task: bool,
    other: usize,
)
    ensures
        ({
            let now = awaiting(operations, token, waker, same_task);
            &&& now.contains_key(other) == operations.contains_key(other)
            &&& result_of(now, other) == result_of(operations, other)
            &&& operations.contains_key(other) ==> now[other].ignored == operations[other].ignored
            &&& other != token ==> waiter_in(now, other) == waiter_in(operations, other)
            &&& operations.contains_key(token) && !same_task ==> waiter_in(now, token) == Some(
                waker,
            )
            &&& operations.contains_key(token) ==> waiter_in(now, token) is Some
        }),
{
}

/// That nobody will ask for a result is noted of that operation alone, and takes nothing from it.
pub proof fn law_ignoring_is_for_its_operation(
    operations: Map<usize, Completion>,
    token: usize,
    other: usize,
)
    ensures
        ({
            let now = ignoring(operations, token);
            &&& now.contains_key(other) == operations.contains_key(other)
            &&& result_of(now, other) == result_of(operations, other)
            &&& waiter_in(now, other) == waiter_in(operations, other)
            &&& operations.contains_key(other) ==> now[other].ignored == (other == token
                || operations[other].ignored)
        }),
{
}

/// The result of an operation, and who waits for it, are as they are on record.
pub proof fn law_the_record_is_read_as_it_is(operations: Map<usize, Completion>, token: usize)
    ensures
        operations.contains_key(token) ==> result_of(operations, token)
            == operations[token].completed && waiter_in(operations, token)
            == operations[token].waiter,
        !operations.contains_key(token) ==> result_of(operations, token) is None && waiter_in(
            operations,
            token,
        ) is None,
{
}

} // verus!
