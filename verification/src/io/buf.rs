//! Buffers that operations read from.

use vstd::prelude::*;
use vstd::slice::slice_subrange;
use vstd::utf8::encode_utf8;

verus! {

/// `alloc::vec::Vec::capacity`: how many bytes the vector can hold without growing, which is no
/// fewer than it holds. No vector takes up more than `isize::MAX` bytes.
#[verifier::external_body]
fn vec_capacity(vec: &Vec<u8>) -> (capacity: usize)
    ensures
        vec@.len() <= capacity <= isize::MAX,
{
    vec.capacity()
}

/// `alloc::string::String::capacity`: how many bytes the string can hold without growing, which is
/// no fewer than it holds. No string takes up more than `isize::MAX` bytes.
#[verifier::external_body]
fn string_capacity(string: &String) -> (capacity: usize)
    ensures
        encode_utf8(string@).len() <= capacity <= isize::MAX,
{
    string.capacity()
}

/// A read-only buffer.
pub trait IoBuf {
    /// The initialized part of the buffer.
    spec fn bytes(&self) -> Seq<u8>;

    /// Whether the buffer lives inside the value itself, so that it moves when the value does.
    spec fn is_inline(&self) -> bool;

    /// Whether the buffer can be said to have room for so many bytes. Where the allocator decides,
    /// several answers can.
    spec fn has_room(&self, capacity: usize) -> bool;

    /// There is room for what the buffer holds.
    proof fn room_is_enough(&self, capacity: usize)
        requires
            self.has_room(capacity),
        ensures
            capacity >= self.bytes().len(),
    ;

    /// The initialized part of the buffer.
    fn as_slice(&self) -> (slice: &[u8])
        ensures
            slice@ == self.bytes(),
    ;

    /// The length of the initialized part of the buffer.
    fn buf_len(&self) -> (len: usize)
        ensures
            len == self.bytes().len(),
    ;

    /// How many bytes the buffer has room for.
    fn buf_capacity(&self) -> (capacity: usize)
        ensures
            self.has_room(capacity),
    ;

    /// Whether the buffer has to be put on the heap to stay in place during an operation.
    fn would_box(&self) -> (boxed: bool)
        ensures
            boxed == self.is_inline(),
    ;
}

impl IoBuf for Vec<u8> {
    open spec fn bytes(&self) -> Seq<u8> {
        self@
    }

    open spec fn is_inline(&self) -> bool {
        false
    }

    open spec fn has_room(&self, capacity: usize) -> bool {
        self.bytes().len() <= capacity <= isize::MAX
    }

    proof fn room_is_enough(&self, capacity: usize) {
    }

    fn as_slice(&self) -> (slice: &[u8]) {
        Vec::as_slice(self)
    }

    fn buf_len(&self) -> (len: usize) {
        self.len()
    }

    fn buf_capacity(&self) -> (capacity: usize) {
        vec_capacity(self)
    }

    fn would_box(&self) -> (boxed: bool) {
        false
    }
}

impl IoBuf for String {
    open spec fn bytes(&self) -> Seq<u8> {
        encode_utf8(self@)
    }

    open spec fn is_inline(&self) -> bool {
        false
    }

    open spec fn has_room(&self, capacity: usize) -> bool {
        self.bytes().len() <= capacity <= isize::MAX
    }

    proof fn room_is_enough(&self, capacity: usize) {
    }

    fn as_slice(&self) -> (slice: &[u8]) {
        self.as_str().as_bytes()
    }

    fn buf_len(&self) -> (len: usize) {
        self.as_str().as_bytes().len()
    }

    fn buf_capacity(&self) -> (capacity: usize) {
        string_capacity(self)
    }

    fn would_box(&self) -> (boxed: bool) {
        false
    }
}

impl IoBuf for &'static [u8] {
    open spec fn bytes(&self) -> Seq<u8> {
        self@
    }

    open spec fn is_inline(&self) -> bool {
        false
    }

    open spec fn has_room(&self, capacity: usize) -> bool {
        capacity == self.bytes().len()
    }

    proof fn room_is_enough(&self, capacity: usize) {
    }

    fn as_slice(&self) -> (slice: &[u8]) {
        self
    }

    fn buf_len(&self) -> (len: usize) {
        self.len()
    }

    fn buf_capacity(&self) -> (capacity: usize) {
        self.len()
    }

    fn would_box(&self) -> (boxed: bool) {
        false
    }
}

impl IoBuf for &'static str {
    open spec fn bytes(&self) -> Seq<u8> {
        encode_utf8(self@)
    }

    open spec fn is_inline(&self) -> bool {
        false
    }

    open spec fn has_room(&self, capacity: usize) -> bool {
        capacity == self.bytes().len()
    }

    proof fn room_is_enough(&self, capacity: usize) {
    }

    fn as_slice(&self) -> (slice: &[u8]) {
        self.as_bytes()
    }

    fn buf_len(&self) -> (len: usize) {
        self.as_bytes().len()
    }

    fn buf_capacity(&self) -> (capacity: usize) {
        self.as_bytes().len()
    }

    fn would_box(&self) -> (boxed: bool) {
        false
    }
}

impl<const N: usize> IoBuf for [u8; N] {
    open spec fn bytes(&self) -> Seq<u8> {
        self@
    }

    open spec fn is_inline(&self) -> bool {
        true
    }

    open spec fn has_room(&self, capacity: usize) -> bool {
        capacity == self.bytes().len()
    }

    proof fn room_is_enough(&self, capacity: usize) {
    }

    fn as_slice(&self) -> (slice: &[u8]) {
        self.as_slice()
    }

    fn buf_len(&self) -> (len: usize) {
        N
    }

    fn buf_capacity(&self) -> (capacity: usize) {
        N
    }

    fn would_box(&self) -> (boxed: bool) {
        true
    }
}

impl IoBuf for Box<[u8]> {
    open spec fn bytes(&self) -> Seq<u8> {
        (**self)@
    }

    open spec fn is_inline(&self) -> bool {
        false
    }

    open spec fn has_room(&self, capacity: usize) -> bool {
        capacity == self.bytes().len()
    }

    proof fn room_is_enough(&self, capacity: usize) {
    }

    fn as_slice(&self) -> (slice: &[u8]) {
        &**self
    }

    fn buf_len(&self) -> (len: usize) {
        (**self).len()
    }

    fn buf_capacity(&self) -> (capacity: usize) {
        (**self).len()
    }

    fn would_box(&self) -> (boxed: bool) {
        false
    }
}

/// A buffer with a cursor that tracks how much of it is done with.
pub struct IoBufWithCursor<I: IoBuf> {
    buf: I,
    cursor: usize,
}

impl<I: IoBuf> IoBufWithCursor<I> {
    #[verifier::type_invariant]
    spec fn cursor_in_range(self) -> bool {
        self.cursor <= self.buf.bytes().len()
    }

    /// The whole buffer.
    pub closed spec fn inner(&self) -> I {
        self.buf
    }

    /// How much of the buffer is done with.
    pub closed spec fn position(&self) -> usize {
        self.cursor
    }

    /// A buffer of which nothing is done with.
    pub fn new(buf: I) -> (r: Self)
        ensures
            r.inner() == buf,
            r.position() == 0,
    {
        IoBufWithCursor { buf, cursor: 0 }
    }

    /// Advances the cursor by `n` bytes.
    pub fn advance(&mut self, n: usize)
        requires
            old(self).position() + n <= old(self).inner().bytes().len(),
            old(self).position() + n <= usize::MAX,
        ensures
            final(self).inner() == old(self).inner(),
            final(self).position() == old(self).position() + n,
            final(self).bytes() == old(self).bytes().skip(n as int),
    {
        proof {
            use_type_invariant(&*self);
        }
        self.cursor = self.cursor + n;
        assert(self.bytes() =~= old(self).bytes().skip(n as int));
    }

    /// Gives the whole buffer back.
    pub fn into_inner(self) -> (buf: I)
        ensures
            buf == self.inner(),
    {
        self.buf
    }

    /// The length of the part that is not done with.
    pub fn remaining(&self) -> (len: usize)
        ensures
            self.position() + len == self.inner().bytes().len(),
    {
        proof {
            use_type_invariant(self);
        }
        self.buf.buf_len() - self.cursor
    }

    /// The whole buffer.
    pub fn whole(&self) -> (slice: &[u8])
        ensures
            slice@ == self.inner().bytes(),
    {
        self.buf.as_slice()
    }

    /// How much room there is after the cursor, where it is already known how much the whole
    /// buffer has.
    pub fn remaining_of(&self, capacity: usize) -> (room: usize)
        requires
            self.inner().has_room(capacity),
        ensures
            self.position() + room == capacity,
    {
        proof {
            use_type_invariant(self);
            self.buf.room_is_enough(capacity);
        }
        capacity - self.cursor
    }

    /// How much room there is after the cursor.
    pub fn remaining_capacity(&self) -> (capacity: usize)
        ensures
            self.position() + capacity <= usize::MAX,
            self.inner().has_room((self.position() + capacity) as usize),
    {
        self.remaining_of(self.buf.buf_capacity())
    }
}

/// A buffer with a cursor is what comes after the cursor.
impl<I: IoBuf> IoBuf for IoBufWithCursor<I> {
    open spec fn bytes(&self) -> Seq<u8> {
        self.inner().bytes().skip(self.position() as int)
    }

    open spec fn is_inline(&self) -> bool {
        self.inner().is_inline()
    }

    open spec fn has_room(&self, capacity: usize) -> bool {
        &&& self.position() <= self.inner().bytes().len()
        &&& self.position() + capacity <= usize::MAX
        &&& self.inner().has_room((self.position() + capacity) as usize)
    }

    proof fn room_is_enough(&self, capacity: usize) {
        self.inner().room_is_enough((self.position() + capacity) as usize);
    }

    fn as_slice(&self) -> (slice: &[u8]) {
        proof {
            use_type_invariant(self);
        }
        let whole = self.whole();
        slice_subrange(whole, self.cursor, whole.len())
    }

    fn buf_len(&self) -> (len: usize) {
        proof {
            use_type_invariant(self);
        }
        self.remaining()
    }

    fn buf_capacity(&self) -> (capacity: usize) {
        proof {
            use_type_invariant(self);
        }
        self.remaining_capacity()
    }

    fn would_box(&self) -> (boxed: bool) {
        self.buf.would_box()
    }
}

/// Advancing a cursor takes as much off the bytes, their number and the room as it advances, and
/// nothing off the whole buffer.
pub proof fn law_advancing_takes_off_the_front<I: IoBuf>(
    before: IoBufWithCursor<I>,
    after: IoBufWithCursor<I>,
    n: usize,
)
    requires
        before.position() + n <= before.inner().bytes().len(),
        after.inner() == before.inner(),
        after.position() == before.position() + n,
    ensures
        after.bytes() == before.bytes().skip(n as int),
        after.bytes().len() == before.bytes().len() - n,
        forall|room: usize| #[trigger]
            before.has_room(room) ==> room >= n && after.has_room((room - n) as usize),
        forall|room: usize| #[trigger]
            after.has_room(room) ==> before.has_room((room + n) as usize),
{
    assert(after.bytes() =~= before.bytes().skip(n as int));
    assert forall|room: usize| #[trigger] before.has_room(room) implies room >= n
        && after.has_room((room - n) as usize) by {
        before.room_is_enough(room);
        assert(before.position() + room == after.position() + (room - n));
    }
    assert forall|room: usize| #[trigger] after.has_room(room) implies before.has_room(
        (room + n) as usize,
    ) by {
        assert(before.position() + (room + n) == after.position() + room);
    }
}

/// Advancing a cursor twice is advancing it once by the sum.
pub proof fn law_advances_add_up<I: IoBuf>(
    before: IoBufWithCursor<I>,
    between: IoBufWithCursor<I>,
    after: IoBufWithCursor<I>,
    at_once: IoBufWithCursor<I>,
    a: usize,
    b: usize,
)
    requires
        before.position() + a + b <= before.inner().bytes().len(),
        between.inner() == before.inner(),
        between.position() == before.position() + a,
        after.inner() == between.inner(),
        after.position() == between.position() + b,
        at_once.inner() == before.inner(),
        at_once.position() == before.position() + (a + b),
    ensures
        after.inner() == at_once.inner(),
        after.position() == at_once.position(),
        after.bytes() == at_once.bytes(),
        after.bytes() == before.bytes().skip(a + b),
{
    assert(after.bytes() =~= before.bytes().skip(a + b));
}

/// A buffer that stays in place while the kernel uses it: on the heap, where it would otherwise
/// move with the operation.
pub enum CompletionBuffer<B: IoBuf> {
    Inline(B),
    Boxed(Box<B>),
}

impl<B: IoBuf> CompletionBuffer<B> {
    /// The buffer.
    pub open spec fn view(&self) -> B {
        match self {
            CompletionBuffer::Inline(buf) => *buf,
            CompletionBuffer::Boxed(buf) => **buf,
        }
    }

    /// Puts the buffer on the heap, if it has to be there to stay in place.
    pub fn new(buf: B, stable: bool) -> (r: Self)
        ensures
            r@ == buf,
            r is Boxed == (stable && buf.is_inline()),
    {
        if stable && buf.would_box() {
            CompletionBuffer::Boxed(Box::new(buf))
        } else {
            CompletionBuffer::Inline(buf)
        }
    }

    /// The buffer.
    pub fn as_ref(&self) -> (buf: &B)
        ensures
            *buf == self@,
    {
        match self {
            CompletionBuffer::Inline(buf) => buf,
            CompletionBuffer::Boxed(buf) => &**buf,
        }
    }

    /// The buffer, for changing in place.
    pub fn as_mut(&mut self) -> (buf: &mut B)
        ensures
            *buf == old(self)@,
            final(self)@ == *final(buf),
    {
        match self {
            CompletionBuffer::Inline(buf) => buf,
            CompletionBuffer::Boxed(buf) => &mut **buf,
        }
    }

    /// Gives the buffer back.
    pub fn into_inner(self) -> (buf: B)
        ensures
            buf == self@,
    {
        match self {
            CompletionBuffer::Inline(buf) => buf,
            CompletionBuffer::Boxed(buf) => *buf,
        }
    }

    /// Gives the buffer back on the heap.
    pub fn into_stable_box(self) -> (buf: Box<B>)
        ensures
            *buf == self@,
    {
        match self {
            CompletionBuffer::Inline(buf) => Box::new(buf),
            CompletionBuffer::Boxed(buf) => buf,
        }
    }
}

/// A buffer is the bytes that it holds. Those of a buffer on the heap stay in place, and there is room
/// for just them where the buffer cannot grow.
pub proof fn law_a_buffer_is_what_it_holds(
    vec: Vec<u8>,
    string: String,
    slice: &'static [u8],
    text: &'static str,
    boxed: Box<[u8]>,
    capacity: usize,
)
    ensures
        IoBuf::bytes(&vec) == vec@,
        IoBuf::bytes(&string) == encode_utf8(string@),
        IoBuf::bytes(&slice) == slice@,
        IoBuf::bytes(&text) == encode_utf8(text@),
        IoBuf::bytes(&boxed) == (*boxed)@,
        !IoBuf::is_inline(&vec),
        !IoBuf::is_inline(&string),
        !IoBuf::is_inline(&slice),
        !IoBuf::is_inline(&text),
        !IoBuf::is_inline(&boxed),
        IoBuf::has_room(&vec, capacity) <==> vec@.len() <= capacity <= isize::MAX,
        IoBuf::has_room(&string, capacity) <==> encode_utf8(string@).len() <= capacity <= isize::MAX,
        IoBuf::has_room(&slice, capacity) <==> capacity == slice@.len(),
        IoBuf::has_room(&text, capacity) <==> capacity == encode_utf8(text@).len(),
        IoBuf::has_room(&boxed, capacity) <==> capacity == (*boxed)@.len(),
{
}

/// An array holds its bytes in itself, so that it moves when it is moved, and has room for just them.
pub proof fn law_an_array_holds_its_bytes_in_itself<const N: usize>(array: [u8; N], capacity: usize)
    ensures
        IoBuf::bytes(&array) == array@,
        IoBuf::is_inline(&array),
        IoBuf::has_room(&array, capacity) <==> capacity == array@.len(),
{
}

/// Where a buffer is kept does not change what it holds.
pub proof fn law_a_kept_buffer_is_the_same<B: IoBuf>(buf: B, boxed: Box<B>)
    ensures
        CompletionBuffer::Inline(buf)@ == buf,
        CompletionBuffer::Boxed(boxed)@ == *boxed,
{
}

} // verus!
