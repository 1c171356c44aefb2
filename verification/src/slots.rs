//! Slab storage shared by the timer and the drivers.

use crate::driver::completions::Completion;
use crate::driver::iocp;
use crate::driver::mio::Registration;
use crate::driver::uring::HandleRegistration;
use slab::Slab;
use std::task::Waker;
use vstd::prelude::*;

verus! {

/// A task's wake handle, carried through unread.
#[verifier::external_type_specification]
#[verifier::external_body]
pub struct ExWaker(std::task::Waker);

/// Keyed storage that hands out a free key for each value put in.
#[verifier::external_type_specification]
#[verifier::external_body]
#[verifier::reject_recursive_types(T)]
pub struct ExSlab<T>(slab::Slab<T>);

/// A timer waiting in the wheel.
pub struct TimerEntry {
    pub waker: Waker,
    pub expiration_tick: u64,
    pub generation: u64,
    pub level: usize,
    pub slot: usize,
}

/// What a slab of this crate can hold.
pub enum Record {
    Timer(TimerEntry),
    Handle(HandleRegistration),
    Completion(Completion),
    Watch(Registration),
    PortHandle(iocp::HandleRegistration),
    PollOp(iocp::PollOp),
}

/// The values a slab holds, by key.
pub uninterp spec fn slab_contents(slab: Slab<Record>) -> Map<usize, Record>;

/// The key the slab gives to the next value.
pub uninterp spec fn slab_next_key(slab: Slab<Record>) -> usize;

/// `slab::Slab::new`: the slab is empty.
#[verifier::external_body]
pub(crate) fn slab_new() -> (fresh: Slab<Record>)
    ensures
        slab_contents(fresh).dom() == Set::<usize>::empty(),
{
    Slab::new()
}

/// `slab::Slab::is_empty`: whether no key is in use.
#[verifier::external_body]
pub(crate) fn slab_is_empty(slab: &Slab<Record>) -> (empty: bool)
    ensures
        empty == slab_contents(*slab).dom().is_empty(),
{
    slab.is_empty()
}

/// `slab::Slab::vacant_key`: the key the slab gives to the next value, which is free. It is no
/// larger than the length of the vector of entries, and a vector takes up at most `isize::MAX`
/// bytes, of which each entry needs several.
#[verifier::external_body]
pub(crate) fn slab_vacant_key(slab: &Slab<Record>) -> (key: usize)
    ensures
        key == slab_next_key(*slab),
        key < isize::MAX,
        !slab_contents(*slab).contains_key(key),
{
    slab.vacant_key()
}

/// `slab::Slab::insert`: puts the value under the slab's next key, which was free, and returns
/// that key, which is bounded as `slab_vacant_key` says.
#[verifier::external_body]
pub(crate) fn slab_insert(slab: &mut Slab<Record>, record: Record) -> (key: usize)
    ensures
        key == slab_next_key(*old(slab)),
        key < isize::MAX,
        !slab_contents(*old(slab)).contains_key(key),
        slab_contents(*final(slab)) == slab_contents(*old(slab)).insert(key, record),
{
    slab.insert(record)
}

/// `slab::Slab::get`: the value under the key, where the key is in use.
#[verifier::external_body]
pub(crate) fn slab_get(slab: &Slab<Record>, key: usize) -> (record: Option<&Record>)
    ensures
        match record {
            Some(r) => slab_contents(*slab).contains_key(key) && *r == slab_contents(*slab)[key],
            None => !slab_contents(*slab).contains_key(key),
        },
{
    slab.get(key)
}

/// `slab::Slab::get_mut`: the value under the key for changing in place, where the key is in use;
/// what is written through it is what the slab then holds under the key.
#[verifier::external_body]
pub(crate) fn slab_get_mut(slab: &mut Slab<Record>, key: usize) -> (record: Option<&mut Record>)
    ensures
        match record {
            Some(r) => {
                &&& slab_contents(*old(slab)).contains_key(key)
                &&& *r == slab_contents(*old(slab))[key]
                &&& slab_contents(*final(slab)) == slab_contents(*old(slab)).insert(key, *final(r))
            },
            None => {
                &&& !slab_contents(*old(slab)).contains_key(key)
                &&& slab_contents(*final(slab)) == slab_contents(*old(slab))
            },
        },
{
    slab.get_mut(key)
}

/// `slab::Slab::try_remove`: takes the value under the key out, where the key is in use.
#[verifier::external_body]
pub(crate) fn slab_try_remove(slab: &mut Slab<Record>, key: usize) -> (record: Option<Record>)
    ensures
        match record {
            Some(r) => {
                &&& slab_contents(*old(slab)).contains_key(key)
                &&& r == slab_contents(*old(slab))[key]
                &&& slab_contents(*final(slab)) == slab_contents(*old(slab)).remove(key)
            },
            None => {
                &&& !slab_contents(*old(slab)).contains_key(key)
                &&& slab_contents(*final(slab)) == slab_contents(*old(slab))
            },
        },
{
    slab.try_remove(key)
}

} // verus!
