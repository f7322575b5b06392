//! The two lock-free rings between the audio thread and the transmit thread.
//!
//! One ring carries queued frames `(timestamp, payload)` from the audio thread to the
//! transmit thread; the other carries spent payload buffers back, so that they can be
//! used again. Both are `rtrb` rings: one producer, one consumer, each owned by a single
//! thread.
//!
//! Either end of a ring can be spoken of without knowing what the other thread does at
//! the same moment:
//!
//! * the items that pass through a ring are numbered in the order in which they are
//!   pushed, and the *log* of a ring maps each number to its item. Both ends have the
//!   same log.
//! * the producer counts what it has *pushed*, and knows of so many pops as it has *seen*.
//!   The ring holds at most its *capacity*, so as long as fewer than that are pushed and
//!   not seen popped, a push cannot fail. Where there are as many, the producer looks
//!   again, and fails if and only if it still sees no free slot.
//! * the consumer counts what it has *popped*, and knows of so many pushes as it has
//!   *seen*. As long as more were seen pushed than were popped, a pop cannot fail. Where
//!   there are none, the consumer looks again, and finds nothing if and only if it still
//!   sees no more pushes. A look never shows more than the capacity.
//! * either end counts how often it has *looked* at what the other end did. What a look
//!   shows depends on the other thread; whether there was one does not.
use rtrb::{Consumer, Producer, PushError, RingBuffer};
use vstd::prelude::*;

verus! {

/// How many frames can wait to be sent, and how many spare buffers there can be.
pub const RING_SIZE: usize = 256;

/// The writing end of an `rtrb` ring.
#[verifier::external_type_specification]
#[verifier::external_body]
#[verifier::reject_recursive_types(T)]
pub struct ExProducer<T>(rtrb::Producer<T>);

/// The reading end of an `rtrb` ring.
#[verifier::external_type_specification]
#[verifier::external_body]
#[verifier::reject_recursive_types(T)]
pub struct ExConsumer<T>(rtrb::Consumer<T>);

/// The frames that pass through the ring of `p`, numbered in the order of their pushes.
pub uninterp spec fn frame_log_in(p: Producer<(u64, Vec<u8>)>) -> Map<nat, (u64, Seq<u8>)>;

/// How many frames `p` has pushed.
pub uninterp spec fn frames_pushed(p: Producer<(u64, Vec<u8>)>) -> nat;

/// How many slots the ring of `p` has.
pub uninterp spec fn frame_capacity(p: Producer<(u64, Vec<u8>)>) -> nat;

/// How many pops `p` has seen.
pub uninterp spec fn frame_pops_seen(p: Producer<(u64, Vec<u8>)>) -> nat;

/// How often `p` has looked for pops.
pub uninterp spec fn frame_pop_looks(p: Producer<(u64, Vec<u8>)>) -> nat;

/// The frames that pass through the ring of `c`, numbered in the order of their pushes.
pub uninterp spec fn frame_log_out(c: Consumer<(u64, Vec<u8>)>) -> Map<nat, (u64, Seq<u8>)>;

/// How many frames `c` has popped.
pub uninterp spec fn frames_popped(c: Consumer<(u64, Vec<u8>)>) -> nat;

/// How many slots the ring of `c` has.
pub uninterp spec fn frame_capacity_out(c: Consumer<(u64, Vec<u8>)>) -> nat;

/// How many pushes `c` has seen.
pub uninterp spec fn frame_pushes_seen(c: Consumer<(u64, Vec<u8>)>) -> nat;

/// How often `c` has looked for pushes.
pub uninterp spec fn frame_push_looks(c: Consumer<(u64, Vec<u8>)>) -> nat;

/// Calls `rtrb::RingBuffer::new` for a ring of frames: both ends are fresh and belong to
/// one ring, all of whose slots are free.
#[verifier::external_body]
pub(crate) fn new_frame_ring(capacity: usize) -> (ends: (
    Producer<(u64, Vec<u8>)>,
    Consumer<(u64, Vec<u8>)>,
))
    requires
        capacity <= 0x1_0000,
    ensures
        frame_log_in(ends.0) == frame_log_out(ends.1),
        frames_pushed(ends.0) == 0,
        frame_capacity(ends.0) == capacity,
        frame_capacity_out(ends.1) == capacity,
        frame_pops_seen(ends.0) == 0,
        frame_pop_looks(ends.0) == 0,
        frames_popped(ends.1) == 0,
        frame_pushes_seen(ends.1) == 0,
        frame_push_looks(ends.1) == 0,
{
    RingBuffer::new(capacity)
}

/// Calls `rtrb::Producer::push` on a ring of frames: the frame becomes the next one of the
/// log, or comes back when the ring is full. It is full if and only if as many as its
/// capacity were pushed and not seen popped; the producer looks for pops exactly where it
/// would be full without them, and never sees more pops than pushes.
#[verifier::external_body]
pub(crate) fn push_frame(p: &mut Producer<(u64, Vec<u8>)>, frame: (u64, Vec<u8>)) -> (r: Result<
    (),
    (u64, Vec<u8>),
>)
    ensures
        frame_log_in(*final(p)) == frame_log_in(*old(p)),
        frame_capacity(*final(p)) == frame_capacity(*old(p)),
        frame_pops_seen(*old(p)) <= frame_pops_seen(*final(p)) <= frames_pushed(*old(p)),
        frames_pushed(*old(p)) < frame_capacity(*old(p)) + frame_pops_seen(*old(p))
            ==> frame_pops_seen(*final(p)) == frame_pops_seen(*old(p)),
        frame_pop_looks(*final(p)) == frame_pop_looks(*old(p)) + if frames_pushed(*old(p))
            < frame_capacity(*old(p)) + frame_pops_seen(*old(p)) {
            0int
        } else {
            1int
        },
        r is Ok <==> frames_pushed(*old(p)) < frame_capacity(*old(p)) + frame_pops_seen(*final(p)),
        match r {
            Ok(()) => {
                &&& frames_pushed(*final(p)) == frames_pushed(*old(p)) + 1
                &&& frame_log_in(*old(p))[frames_pushed(*old(p))] == (frame.0, frame.1@)
            },
            Err(back) => {
                &&& back == frame
                &&& frames_pushed(*final(p)) == frames_pushed(*old(p))
            },
        },
{
    p.push(frame).map_err(|e| match e { PushError::Full(back) => back })
}

/// Calls `rtrb::Consumer::pop` on a ring of frames: the frame is the next one of the log.
/// There is one if and only if more were seen pushed than were popped; the consumer looks
/// for pushes exactly where there would be none without them, and sees no more than fit.
#[verifier::external_body]
pub(crate) fn pop_frame(c: &mut Consumer<(u64, Vec<u8>)>) -> (r: Option<(u64, Vec<u8>)>)
    ensures
        frame_log_out(*final(c)) == frame_log_out(*old(c)),
        frame_capacity_out(*final(c)) == frame_capacity_out(*old(c)),
        frame_pushes_seen(*old(c)) <= frame_pushes_seen(*final(c)),
        frames_popped(*old(c)) >= frame_pushes_seen(*old(c)) ==> frame_pushes_seen(*final(c))
            <= frames_popped(*old(c)) + frame_capacity_out(*old(c)),
        frames_popped(*old(c)) < frame_pushes_seen(*old(c)) ==> frame_pushes_seen(*final(c))
            == frame_pushes_seen(*old(c)),
        frame_push_looks(*final(c)) == frame_push_looks(*old(c)) + if frames_popped(*old(c))
            < frame_pushes_seen(*old(c)) {
            0int
        } else {
            1int
        },
        r is Some <==> frames_popped(*old(c)) < frame_pushes_seen(*final(c)),
        match r {
            Some(frame) => {
                &&& frames_popped(*final(c)) == frames_popped(*old(c)) + 1
                &&& frame_log_out(*old(c))[frames_popped(*old(c))] == (frame.0, frame.1@)
            },
            None => frames_popped(*final(c)) == frames_popped(*old(c)),
        },
{
    c.pop().ok()
}

/// Calls `rtrb::Consumer::slots` on a ring of frames: looks for pushes, and says how many
/// frames were seen pushed and not popped, at most as many as fit. The end is borrowed
/// mutably because the look changes what it has seen.
#[verifier::external_body]
pub(crate) fn frame_slots(c: &mut Consumer<(u64, Vec<u8>)>) -> (n: usize)
    ensures
        frame_log_out(*final(c)) == frame_log_out(*old(c)),
        frame_capacity_out(*final(c)) == frame_capacity_out(*old(c)),
        frames_popped(*final(c)) == frames_popped(*old(c)),
        frame_pushes_seen(*final(c)) >= frame_pushes_seen(*old(c)),
        frame_pushes_seen(*final(c)) == frames_popped(*old(c)) + n,
        frame_push_looks(*final(c)) == frame_push_looks(*old(c)) + 1,
        n <= frame_capacity_out(*old(c)),
{
    c.slots()
}

/// The buffers that pass through the ring of `p`, numbered in the order of their pushes.
pub uninterp spec fn spare_log_in(p: Producer<Vec<u8>>) -> Map<nat, Seq<u8>>;

/// How many buffers `p` has pushed.
pub uninterp spec fn spares_pushed(p: Producer<Vec<u8>>) -> nat;

/// How many slots the ring of `p` has.
pub uninterp spec fn spare_capacity(p: Producer<Vec<u8>>) -> nat;

/// How many pops `p` has seen.
pub uninterp spec fn spare_pops_seen(p: Producer<Vec<u8>>) -> nat;

/// How often `p` has looked for pops.
pub uninterp spec fn spare_pop_looks(p: Producer<Vec<u8>>) -> nat;

/// The buffers that pass through the ring of `c`, numbered in the order of their pushes.
pub uninterp spec fn spare_log_out(c: Consumer<Vec<u8>>) -> Map<nat, Seq<u8>>;

/// How many buffers `c` has popped.
pub uninterp spec fn spares_popped(c: Consumer<Vec<u8>>) -> nat;

/// How many slots the ring of `c` has.
pub uninterp spec fn spare_capacity_out(c: Consumer<Vec<u8>>) -> nat;

/// How many pushes `c` has seen.
pub uninterp spec fn spare_pushes_seen(c: Consumer<Vec<u8>>) -> nat;

/// How often `c` has looked for pushes.
pub uninterp spec fn spare_push_looks(c: Consumer<Vec<u8>>) -> nat;

/// The number of the ring of `p`. Each ring has a number of its own.
pub uninterp spec fn spare_ring_in(p: Producer<Vec<u8>>) -> nat;

/// The number of the ring of `c`. Each ring has a number of its own.
pub uninterp spec fn spare_ring_out(c: Consumer<Vec<u8>>) -> nat;

/// Calls `rtrb::RingBuffer::new` for a ring of buffers: both ends are fresh and belong to
/// one ring, all of whose slots are free.
#[verifier::external_body]
pub(crate) fn new_spare_ring(capacity: usize) -> (ends: (Producer<Vec<u8>>, Consumer<Vec<u8>>))
    requires
        capacity <= 0x1_0000,
    ensures
        spare_log_in(ends.0) == spare_log_out(ends.1),
        spare_ring_in(ends.0) == spare_ring_out(ends.1),
        spares_pushed(ends.0) == 0,
        spare_capacity(ends.0) == capacity,
        spare_capacity_out(ends.1) == capacity,
        spare_pops_seen(ends.0) == 0,
        spare_pop_looks(ends.0) == 0,
        spares_popped(ends.1) == 0,
        spare_pushes_seen(ends.1) == 0,
        spare_push_looks(ends.1) == 0,
{
    RingBuffer::new(capacity)
}

/// Calls `rtrb::Producer::push` on a ring of buffers: the buffer becomes the next one of the
/// log, or comes back when the ring is full. It is full if and only if as many as its
/// capacity were pushed and not seen popped; the producer looks for pops exactly where it
/// would be full without them, and never sees more pops than pushes.
#[verifier::external_body]
pub(crate) fn push_spare(p: &mut Producer<Vec<u8>>, buffer: Vec<u8>) -> (r: Result<(), Vec<u8>>)
    ensures
        spare_log_in(*final(p)) == spare_log_in(*old(p)),
        spare_ring_in(*final(p)) == spare_ring_in(*old(p)),
        spare_capacity(*final(p)) == spare_capacity(*old(p)),
        spare_pops_seen(*old(p)) <= spare_pops_seen(*final(p)) <= spares_pushed(*old(p)),
        spares_pushed(*old(p)) < spare_capacity(*old(p)) + spare_pops_seen(*old(p))
            ==> spare_pops_seen(*final(p)) == spare_pops_seen(*old(p)),
        spare_pop_looks(*final(p)) == spare_pop_looks(*old(p)) + if spares_pushed(*old(p))
            < spare_capacity(*old(p)) + spare_pops_seen(*old(p)) {
            0int
        } else {
            1int
        },
        r is Ok <==> spares_pushed(*old(p)) < spare_capacity(*old(p)) + spare_pops_seen(*final(p)),
        match r {
            Ok(()) => {
                &&& spares_pushed(*final(p)) == spares_pushed(*old(p)) + 1
                &&& spare_log_in(*old(p))[spares_pushed(*old(p))] == buffer@
            },
            Err(back) => {
                &&& back == buffer
                &&& spares_pushed(*final(p)) == spares_pushed(*old(p))
            },
        },
{
    p.push(buffer).map_err(|e| match e { PushError::Full(back) => back })
}

/// Calls `rtrb::Consumer::pop` on a ring of buffers: the buffer is the next one of the log.
/// There is one if and only if more were seen pushed than were popped; the consumer looks
/// for pushes exactly where there would be none without them, and sees no more than fit.
#[verifier::external_body]
pub(crate) fn pop_spare(c: &mut Consumer<Vec<u8>>) -> (r: Option<Vec<u8>>)
    ensures
        spare_log_out(*final(c)) == spare_log_out(*old(c)),
        spare_capacity_out(*final(c)) == spare_capacity_out(*old(c)),
        spare_ring_out(*final(c)) == spare_ring_out(*old(c)),
        spare_pushes_seen(*old(c)) <= spare_pushes_seen(*final(c)),
        spares_popped(*old(c)) >= spare_pushes_seen(*old(c)) ==> spare_pushes_seen(*final(c))
            <= spares_popped(*old(c)) + spare_capacity_out(*old(c)),
        spares_popped(*old(c)) < spare_pushes_seen(*old(c)) ==> spare_pushes_seen(*final(c))
            == spare_pushes_seen(*old(c)),
        spare_push_looks(*final(c)) == spare_push_looks(*old(c)) + if spares_popped(*old(c))
            < spare_pushes_seen(*old(c)) {
            0int
        } else {
            1int
        },
        r is Some <==> spares_popped(*old(c)) < spare_pushes_seen(*final(c)),
        match r {
            Some(buffer) => {
                &&& spares_popped(*final(c)) == spares_popped(*old(c)) + 1
                &&& spare_log_out(*old(c))[spares_popped(*old(c))] == buffer@
            },
            None => spares_popped(*final(c)) == spares_popped(*old(c)),
        },
{
    c.pop().ok()
}

/// Calls `rtrb::Consumer::slots` on a ring of buffers whose other end stands still: looks for
/// pushes, and sees all that there were. The end is borrowed mutably because the look
/// changes what it has seen.
#[verifier::external_body]
pub(crate) fn spare_slots(c: &mut Consumer<Vec<u8>>, p: &Producer<Vec<u8>>) -> (n: usize)
    requires
        spare_ring_in(*p) == spare_ring_out(*old(c)),
    ensures
        spare_log_out(*final(c)) == spare_log_out(*old(c)),
        spare_capacity_out(*final(c)) == spare_capacity_out(*old(c)),
        spare_ring_out(*final(c)) == spare_ring_out(*old(c)),
        spares_popped(*final(c)) == spares_popped(*old(c)),
        spare_pushes_seen(*final(c)) == spares_pushed(*p),
        spare_pushes_seen(*final(c)) == spares_popped(*old(c)) + n,
        spare_push_looks(*final(c)) == spare_push_looks(*old(c)) + 1,
        n <= spare_capacity_out(*old(c)),
{
    let _ = p;
    c.slots()
}

/// The frames that `p` has pushed, in order.
pub open spec fn frames_in(p: Producer<(u64, Vec<u8>)>) -> Seq<(u64, Seq<u8>)> {
    Seq::new(frames_pushed(p), |k: int| frame_log_in(p)[k as nat])
}

/// The buffers that `p` has pushed, in order.
pub open spec fn spares_in(p: Producer<Vec<u8>>) -> Seq<Seq<u8>> {
    Seq::new(spares_pushed(p), |k: int| spare_log_in(p)[k as nat])
}

} // verus!
