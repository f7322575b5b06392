//! The audio thread's side.
//!
//! An [`AudioProcessor`] takes blocks of audio and never waits: it copies a block into a
//! spare buffer, or a new one where there is none, and queues it for the transmitter. What
//! it has to leave to others it says in [`Added`].
use crate::frame::{samples_per_channel, StreamFormat, BYTES_PER_SAMPLE};
use crate::guarantees::lemma_whole_samples;
use crate::ring::{
    frame_capacity, frame_capacity_out, frame_log_in, frame_log_out, frame_pop_looks,
    frame_pops_seen, frame_push_looks, frame_pushes_seen, frames_in, frames_popped,
    new_frame_ring, new_spare_ring, pop_spare, push_frame, push_spare, spare_capacity,
    spare_capacity_out, spare_log_in, spare_log_out, spare_pop_looks, spare_pops_seen,
    spare_push_looks, spare_pushes_seen, spare_ring_in, spare_ring_out, spare_slots, spares_in,
    spares_popped, spares_pushed, RING_SIZE,
};
use crate::transmitter::{Phase, Transmitter, TransmitterView};
use rtrb::{Consumer, Producer};
use vstd::prelude::*;

verus! {

/// What contracts say of a processor.
#[verifier::ext_equal]
pub struct ProcessorView {
    pub socket_path: Seq<char>,
    pub num_channels: u8,
    pub sample_rate: u32,
    pub frame_id: Option<u16>,
    /// Known from the first block on.
    pub samples_per_channel: Option<usize>,
    /// Whether the transmitter was launched.
    pub started: bool,
    pub shutdown: bool,
    /// The frames of the ring, numbered from 0.
    pub log: Map<nat, (u64, Seq<u8>)>,
    /// The blocks that were queued, in order, each with its timestamp.
    pub queued: Seq<(u64, Seq<u8>)>,
    /// How many of them the processor has seen taken.
    pub taken: nat,
    /// How often it has looked how many were taken.
    pub looks: nat,
    /// The buffers of the ring of spares, numbered from 0.
    pub spare_log: Map<nat, Seq<u8>>,
    /// How many of them have been taken.
    pub spares_taken: nat,
    /// How many the processor has seen put there.
    pub spares_seen: nat,
    /// How often it has looked how many were put there.
    pub spare_looks: nat,
}

impl ProcessorView {
    /// How many blocks wait to be sent, as far as the processor knows.
    pub open spec fn waiting(self) -> int {
        self.queued.len() - self.taken
    }

    /// How many spare buffers are known to be there.
    pub open spec fn spares_on_hand(self) -> int {
        self.spares_seen - self.spares_taken
    }

    /// Whether a transmitter can be launched.
    pub open spec fn can_start(self) -> bool {
        !self.started && self.num_channels > 0
    }
}

/// `len` bytes of silence.
pub open spec fn silence(len: nat) -> Seq<u8> {
    Seq::new(len, |k: int| 0u8)
}

/// The transmitter that is launched with a first block of `frame_size` bytes: it has the
/// other ends of the rings, nothing has been sent, and the spares are as many buffers of
/// this size as their ring holds.
pub open spec fn launched(pre: ProcessorView, frame_size: nat, t: TransmitterView) -> bool {
    t == (TransmitterView {
        socket_path: pre.socket_path,
        format: StreamFormat {
            samples_per_channel: (frame_size as int / (pre.num_channels
                * BYTES_PER_SAMPLE)) as usize,
            num_channels: pre.num_channels,
            sample_rate: pre.sample_rate,
            frame_id: pre.frame_id,
        },
        phase: Phase::Offline,
        log: pre.log,
        taken: 0,
        seen: 0,
        looks: 0,
        spare_log: pre.spare_log,
        spares: Seq::new(RING_SIZE as nat, |k: int| silence(frame_size)),
        spares_taken: 0,
        spare_looks: 0,
        outgoing: Seq::empty(),
        in_flight: Seq::empty(),
        id: 0,
        first: 0,
        sent: Seq::empty(),
    })
}

/// What the launch of a transmitter does to the processor: it looks at the spares that it put
/// there. There can be none where one was launched before.
pub open spec fn starts_tx(
    pre: ProcessorView,
    frame_size: nat,
    post: ProcessorView,
    t: TransmitterView,
) -> bool {
    &&& pre.can_start()
    &&& post == (ProcessorView {
        started: true,
        spares_seen: RING_SIZE as nat,
        spare_looks: pre.spare_looks + 1,
        ..pre
    })
    &&& launched(pre, frame_size, t)
}

/// The processor once it has launched the transmitter. It has looked at the spares.
pub open spec fn starts(pre: ProcessorView, samples_per_channel: usize) -> ProcessorView {
    ProcessorView {
        samples_per_channel: Some(samples_per_channel),
        started: true,
        spares_seen: RING_SIZE as nat,
        spare_looks: pre.spare_looks + 1,
        ..pre
    }
}

/// A spare buffer is taken if there is one. Exactly where none is known does the processor
/// look whether more were put there.
pub open spec fn takes_spare(pre: ProcessorView, post: ProcessorView) -> bool {
    &&& pre.spares_seen <= post.spares_seen
    &&& pre.spares_on_hand() > 0 ==> post.spares_seen == pre.spares_seen
    &&& pre.spares_on_hand() <= 0 ==> post.spares_seen <= pre.spares_taken + RING_SIZE
    &&& post.spare_looks == pre.spare_looks + if pre.spares_on_hand() > 0 {
        0int
    } else {
        1int
    }
    &&& post.spares_taken == pre.spares_taken + if pre.spares_taken < post.spares_seen {
        1int
    } else {
        0
    }
}

/// A block is queued at the end, or is dropped if and only if as many blocks as the ring
/// holds wait. Exactly where as many are known to wait does the processor look whether blocks
/// were taken, of which it never sees more than were queued.
pub open spec fn queues(
    pre: ProcessorView,
    data: Seq<u8>,
    ts: u64,
    post: ProcessorView,
    queued: bool,
) -> bool {
    &&& pre.taken <= post.taken <= pre.queued.len()
    &&& pre.waiting() < RING_SIZE ==> post.taken == pre.taken
    &&& post.looks == pre.looks + if pre.waiting() < RING_SIZE {
        0int
    } else {
        1int
    }
    &&& queued <==> pre.queued.len() < RING_SIZE + post.taken
    &&& post.queued == if queued {
        pre.queued.push((ts, data))
    } else {
        pre.queued
    }
}

/// What [`AudioProcessor::add`] does to the processor.
pub open spec fn adds(
    pre: ProcessorView,
    data: Seq<u8>,
    ts: u64,
    post: ProcessorView,
    queued: bool,
) -> bool {
    let samples = (data.len() as int / (pre.num_channels * BYTES_PER_SAMPLE)) as usize;
    let mid = if pre.started {
        pre
    } else {
        starts(pre, samples)
    };
    &&& takes_spare(mid, post)
    &&& queues(mid, data, ts, post, queued)
    &&& post == (ProcessorView {
        queued: post.queued,
        taken: post.taken,
        looks: post.looks,
        spares_taken: post.spares_taken,
        spares_seen: post.spares_seen,
        spare_looks: post.spare_looks,
        ..mid
    })
}

/// What came of a block.
pub struct Added {
    /// The transmitter that has to run from now on, in a thread of its own: with the first
    /// block there is one.
    pub transmitter: Option<Transmitter>,
    /// Whether the block was queued, so that the transmitter has to be told. It is dropped
    /// when the ring is full.
    pub queued: bool,
}

/// Takes blocks of audio and queues them for the transmitter.
pub struct AudioProcessor {
    socket_path: String,
    data_producer: Producer<(u64, Vec<u8>)>,
    data_consumer: Option<Consumer<(u64, Vec<u8>)>>,
    free_consumer: Consumer<Vec<u8>>,
    free_producer: Option<Producer<Vec<u8>>>,
    samples_per_channel: Option<usize>,
    shutdown: bool,
    started: bool,
    num_channels: u8,
    sample_rate: u32,
    frame_id: Option<u16>,
}

impl View for AudioProcessor {
    type V = ProcessorView;

    closed spec fn view(&self) -> ProcessorView {
        ProcessorView {
            socket_path: self.socket_path@,
            num_channels: self.num_channels,
            sample_rate: self.sample_rate,
            frame_id: self.frame_id,
            samples_per_channel: self.samples_per_channel,
            started: self.started,
            shutdown: self.shutdown,
            log: frame_log_in(self.data_producer),
            queued: frames_in(self.data_producer),
            taken: frame_pops_seen(self.data_producer),
            looks: frame_pop_looks(self.data_producer),
            spare_log: spare_log_out(self.free_consumer),
            spares_taken: spares_popped(self.free_consumer),
            spares_seen: spare_pushes_seen(self.free_consumer),
            spare_looks: spare_push_looks(self.free_consumer),
        }
    }
}

impl AudioProcessor {
    /// Until the start the processor holds both ends of both rings, which are fresh; then
    /// the transmitter has the other ends.
    closed spec fn rings_wf(&self) -> bool {
        &&& frame_capacity(self.data_producer) == RING_SIZE
        &&& self@.taken <= self@.queued.len() <= RING_SIZE + self@.taken
        &&& spare_capacity_out(self.free_consumer) == RING_SIZE
        &&& self@.spares_taken <= self@.spares_seen <= self@.spares_taken + RING_SIZE
        &&& self.started ==> self.data_consumer is None && self.free_producer is None
        &&& !self.started ==> {
            &&& self.data_consumer matches Some(c) && frame_log_out(c) == self@.log
                && frame_capacity_out(c) == RING_SIZE && frames_popped(c) == 0
                && frame_pushes_seen(c) == 0 && frame_push_looks(c) == 0
            &&& self.free_producer matches Some(p) && spare_log_in(p) == self@.spare_log
                && spare_ring_in(p) == spare_ring_out(self.free_consumer) && spares_pushed(p) == 0
                && spare_capacity(p) == RING_SIZE && spare_pops_seen(p) == 0
                && spare_pop_looks(p) == 0
            &&& self@.queued.len() == 0
            &&& self@.spares_taken == 0
            &&& self@.spares_seen == 0
        }
    }

    /// Whether the state is one that calls lead to.
    pub closed spec fn wf(&self) -> bool {
        &&& self.rings_wf()
        &&& self.started <==> self.samples_per_channel is Some
        &&& self.started ==> self.num_channels > 0
    }

    /// A processor for the server at `socket_path`.
    pub fn new(socket_path: String, num_channels: u8, sample_rate: u32) -> (p: Self)
        ensures
            p.wf(),
            p@ == (ProcessorView {
                socket_path: socket_path@,
                num_channels,
                sample_rate,
                frame_id: None,
                samples_per_channel: None,
                started: false,
                shutdown: false,
                log: p@.log,
                queued: Seq::empty(),
                taken: 0,
                looks: 0,
                spare_log: p@.spare_log,
                spares_taken: 0,
                spares_seen: 0,
                spare_looks: 0,
            }),
    {
        let (data_producer, data_consumer) = new_frame_ring(RING_SIZE);
        let (free_producer, free_consumer) = new_spare_ring(RING_SIZE);
        AudioProcessor {
            socket_path,
            data_producer,
            data_consumer: Some(data_consumer),
            free_consumer,
            free_producer: Some(free_producer),
            samples_per_channel: None,
            shutdown: false,
            started: false,
            num_channels,
            sample_rate,
            frame_id: None,
        }
    }

    /// The same processor, with an id that stands in place of the one that the server
    /// assigns. It counts for a transmitter that is launched later.
    pub fn with_frame_id(self, frame_id: u16) -> (p: Self)
        requires
            self.wf(),
        ensures
            p.wf(),
            p@ == (ProcessorView { frame_id: Some(frame_id), ..self@ }),
    {
        let mut p = self;
        p.frame_id = Some(frame_id);
        p
    }

    /// Fills the spares with buffers for blocks of `frame_size` bytes and hands the other
    /// ends of the rings to a transmitter.
    fn start_tx(&mut self, frame_size: usize) -> (t: Transmitter)
        requires
            old(self).rings_wf(),
            old(self)@.can_start(),
        ensures
            final(self).rings_wf(),
            t.wf(),
            starts_tx(old(self)@, frame_size as nat, final(self)@, t@),
    {
        let frames = self.data_consumer.take().unwrap();
        let mut spares = self.free_producer.take().unwrap();
        let ghost log = spare_log_in(spares);
        let ghost ring = spare_ring_in(spares);
        for k in 0..RING_SIZE
            invariant
                spare_log_in(spares) == log,
                spare_ring_in(spares) == ring,
                spares_in(spares) == Seq::new(k as nat, |i: int| silence(frame_size as nat)),
                spare_capacity(spares) == RING_SIZE,
                spare_pops_seen(spares) == 0,
                spare_pop_looks(spares) == 0,
        {
            let ghost before = spares_in(spares);
            let buffer: Vec<u8> = vec![0u8; frame_size];
            assert(buffer@ =~= silence(frame_size as nat));
            let _ = push_spare(&mut spares, buffer);
            assert(spares_in(spares) =~= before.push(silence(frame_size as nat)));
        }
        let _ = spare_slots(&mut self.free_consumer, &spares);
        let format = StreamFormat {
            samples_per_channel: samples_per_channel(frame_size, self.num_channels),
            num_channels: self.num_channels,
            sample_rate: self.sample_rate,
            frame_id: self.frame_id,
        };
        self.started = true;
        Transmitter::new(self.socket_path.clone(), format, frames, spares)
    }

    /// Takes a block of audio with its timestamp. With the first block the transmitter is
    /// launched, whose frame size is the size of this block. The block goes to the end of
    /// the queue, in a spare buffer if there is one, or is dropped when the queue is full;
    /// the first blocks, as many as the ring holds, are never dropped.
    pub fn add(&mut self, data: &[u8], ts: u64) -> (added: Added)
        requires
            old(self).wf(),
            old(self)@.started || old(self)@.num_channels > 0,
        ensures
            final(self).wf(),
            adds(old(self)@, data@, ts, final(self)@, added.queued),
            old(self)@.queued.len() < RING_SIZE ==> added.queued,
            match added.transmitter {
                Some(t) => !old(self)@.started && t.wf() && launched(
                    old(self)@,
                    data@.len(),
                    t@,
                ),
                None => old(self)@.started,
            },
    {
        let mut transmitter: Option<Transmitter> = None;
        if !self.started {
            let frame_size: usize = data.len();
            self.samples_per_channel = Some(samples_per_channel(frame_size, self.num_channels));
            transmitter = Some(self.start_tx(frame_size));
        }
        let mut buffer: Vec<u8> = match pop_spare(&mut self.free_consumer) {
            Some(spare) => {
                let mut spare = spare;
                spare.clear();
                spare
            },
            None => Vec::with_capacity(data.len()),
        };
        buffer.extend_from_slice(data);
        assert(buffer@ =~= data@);
        let queued: bool = push_frame(&mut self.data_producer, (ts, buffer)).is_ok();
        assert(queued ==> self@.queued =~= old(self)@.queued.push((ts, data@)));
        Added { transmitter, queued }
    }

    /// Sets the shutdown flag. The transmitter has to be told.
    pub fn shutdown(&mut self)
        requires
            old(self).wf(),
        ensures
            final(self).wf(),
            final(self)@ == (ProcessorView { shutdown: true, ..old(self)@ }),
    {
        self.shutdown = true;
    }

    /// Whether the shutdown flag is set.
    pub fn is_shutdown(&self) -> (b: bool)
        ensures
            b == self@.shutdown,
    {
        self.shutdown
    }
}

/// The blocks that were queued are the frames of the ring, from number 0 on.
pub proof fn law_queue_is_log(p: &AudioProcessor)
    ensures
        p@.queued == Seq::new(p@.queued.len(), |k: int| p@.log[k as nat]),
{
}

/// A transmitter works on the rings of the processor that launches it, and finds them with
/// nothing taken and with as many spare buffers of the first block's size as fit.
pub proof fn law_launch_shares_rings(pre: ProcessorView, frame_size: nat, t: TransmitterView)
    requires
        launched(pre, frame_size, t),
    ensures
        t.log == pre.log,
        t.taken == 0,
        t.spare_log == pre.spare_log,
        t.spares.len() == RING_SIZE,
        forall|k: int| 0 <= k < RING_SIZE ==> (#[trigger] t.spares[k]).len() == frame_size,
{
}

/// A transmitter is launched for what the user asked for: the path, the channels, the sample
/// rate and the fixed id of the processor, if it has one, and as many samples per channel as
/// the first block holds whole, at three bytes for each channel.
pub proof fn law_launch_as_asked(pre: ProcessorView, frame_size: nat, t: TransmitterView)
    requires
        launched(pre, frame_size, t),
        frame_size <= usize::MAX,
        pre.num_channels > 0,
    ensures
        t.socket_path == pre.socket_path,
        t.format.num_channels == pre.num_channels,
        t.format.sample_rate == pre.sample_rate,
        t.format.frame_id == pre.frame_id,
        t.format.samples_per_channel == frame_size as int / (3 * pre.num_channels),
{
    lemma_whole_samples(
        frame_size as int,
        pre.num_channels,
        frame_size as int / (pre.num_channels * 3),
    );
}

/// A block that was queued stays queued, at its place, whatever becomes of later blocks.
pub proof fn law_queue_only_grows(
    pre: ProcessorView,
    data: Seq<u8>,
    ts: u64,
    post: ProcessorView,
    queued: bool,
)
    requires
        queues(pre, data, ts, post, queued),
    ensures
        pre.queued.is_prefix_of(post.queued),
        post.queued.len() == pre.queued.len() + if queued {
            1int
        } else {
            0
        },
{
}

/// Before the launch nothing was queued, and no spare was put anywhere or taken.
pub proof fn law_fresh_before_launch(p: &AudioProcessor)
    requires
        p.wf(),
        !p@.started,
    ensures
        p@.queued.len() == 0,
        p@.taken == 0,
        p@.spares_taken == 0,
        p@.spares_seen == 0,
{
}

/// Never more blocks wait, as far as the processor knows, than the ring holds, nor does it
/// know of more spares than their ring holds.
pub proof fn law_queue_is_bounded(p: &AudioProcessor)
    requires
        p.wf(),
    ensures
        0 <= p@.waiting() <= RING_SIZE,
        0 <= p@.spares_on_hand() <= RING_SIZE,
{
}

/// A full queue drops the new block, and no other queue drops one. Of the blocks queued
/// before, `taken` were taken; a look that the processor takes shows this.
pub proof fn law_full_queue_drops(
    pre: ProcessorView,
    data: Seq<u8>,
    ts: u64,
    post: ProcessorView,
    queued: bool,
    taken: nat,
)
    requires
        adds(pre, data, ts, post, queued),
        pre.taken <= taken,
        post.looks > pre.looks ==> post.taken == taken,
    ensures
        queued <==> pre.queued.len() - taken < RING_SIZE,
        post.queued == if pre.queued.len() - taken < RING_SIZE {
            pre.queued.push((ts, data))
        } else {
            pre.queued
        },
{
}

/// A block takes a spare buffer whenever there is one. So far `put` were put there; a look
/// that the processor takes shows this.
pub proof fn law_spare_is_taken(
    pre: ProcessorView,
    data: Seq<u8>,
    ts: u64,
    post: ProcessorView,
    queued: bool,
    put: nat,
)
    requires
        pre.started,
        adds(pre, data, ts, post, queued),
        pre.spares_seen <= put,
        post.spare_looks > pre.spare_looks ==> post.spares_seen == put,
    ensures
        post.spares_taken == pre.spares_taken + if pre.spares_taken < put {
            1int
        } else {
            0
        },
{
}

/// A call on a processor.
pub enum Call {
    /// [`AudioProcessor::add`] of a block, and whether it was queued.
    Add { data: Seq<u8>, ts: u64, queued: bool },
    /// [`AudioProcessor::shutdown`].
    Shutdown,
    /// [`AudioProcessor::with_frame_id`].
    WithFrameId(u16),
}

/// What a call does to the processor.
pub open spec fn answers(pre: ProcessorView, call: Call, post: ProcessorView) -> bool {
    match call {
        Call::Add { data, ts, queued } => {
            &&& pre.started || pre.num_channels > 0
            &&& adds(pre, data, ts, post, queued)
        },
        Call::Shutdown => post == (ProcessorView { shutdown: true, ..pre }),
        Call::WithFrameId(id) => post == (ProcessorView { frame_id: Some(id), ..pre }),
    }
}

/// Calls on a processor, one after the other.
pub open spec fn history(views: Seq<ProcessorView>, calls: Seq<Call>) -> bool {
    &&& views.len() == calls.len() + 1
    &&& forall|i: int|
        0 <= i < calls.len() ==> answers(views[i], #[trigger] calls[i], views[i + 1])
}

/// The blocks that were added.
pub open spec fn blocks(calls: Seq<Call>) -> Seq<(u64, Seq<u8>)>
    decreases calls.len(),
{
    if calls.len() == 0 {
        Seq::empty()
    } else {
        match calls.last() {
            Call::Add { data, ts, .. } => blocks(calls.drop_last()).push((ts, data)),
            _ => blocks(calls.drop_last()),
        }
    }
}

/// Whether each block that was added was queued.
pub open spec fn outcomes(calls: Seq<Call>) -> Seq<bool>
    decreases calls.len(),
{
    if calls.len() == 0 {
        Seq::empty()
    } else {
        match calls.last() {
            Call::Add { queued, .. } => outcomes(calls.drop_last()).push(queued),
            _ => outcomes(calls.drop_last()),
        }
    }
}

/// A processor to which nothing was added yet.
pub open spec fn fresh(v: ProcessorView) -> bool {
    &&& !v.started
    &&& v.queued.len() == 0
    &&& v.taken == 0
    &&& v.spares_taken == 0
    &&& v.spares_seen == 0
}

/// The lesser of two numbers.
pub open spec fn lesser(a: nat, b: nat) -> nat {
    if a < b {
        a
    } else {
        b
    }
}

/// All calls but the last.
proof fn lemma_shorter_history(views: Seq<ProcessorView>, calls: Seq<Call>)
    requires
        history(views, calls),
        calls.len() > 0,
    ensures
        history(views.drop_last(), calls.drop_last()),
        views.drop_last()[0] == views[0],
        views.drop_last().last() == views[calls.len() - 1],
        answers(views[calls.len() - 1], calls.last(), views.last()),
{
    let fewer = calls.drop_last();
    assert forall|i: int| 0 <= i < fewer.len() implies answers(
        views.drop_last()[i],
        #[trigger] fewer[i],
        views.drop_last()[i + 1],
    ) by {
        assert(calls[i] == fewer[i]);
    }
    assert(calls[calls.len() - 1] == calls.last());
}

/// The first blocks, as many as the rings hold, are all queued, and each takes one of the
/// spare buffers that were put there at the launch, whatever the transmitter does meanwhile
/// and whichever calls come in between. Until a spare comes back no other is taken.
pub proof fn law_first_blocks(views: Seq<ProcessorView>, calls: Seq<Call>)
    requires
        fresh(views[0]),
        history(views, calls),
    ensures
        ({
            let n = blocks(calls).len();
            let end = views.last();
            &&& end.started <==> n > 0
            &&& n == 0 ==> fresh(end)
            &&& n > 0 ==> end.spares_seen >= RING_SIZE
            &&& n <= RING_SIZE ==> {
                &&& end.queued == blocks(calls)
                &&& end.taken == 0
                &&& end.spares_taken == n
            }
            &&& 0 < n <= RING_SIZE ==> end.spares_on_hand() >= RING_SIZE - n
            &&& end.spares_seen <= RING_SIZE ==> end.spares_taken == lesser(n, RING_SIZE as nat)
        }),
    decreases calls.len(),
{
    if calls.len() == 0 {
        assert(views.last().queued =~= blocks(calls));
    } else {
        lemma_shorter_history(views, calls);
        law_first_blocks(views.drop_last(), calls.drop_last());
    }
}

/// While no block is taken, the queue holds the first blocks in order, as many as the ring
/// holds, and drops all later ones.
pub proof fn law_blocks_while_none_is_taken(views: Seq<ProcessorView>, calls: Seq<Call>)
    requires
        fresh(views[0]),
        history(views, calls),
        views.last().taken == 0,
    ensures
        views.last().queued == blocks(calls).take(
            lesser(blocks(calls).len(), RING_SIZE as nat) as int,
        ),
        outcomes(calls).len() == blocks(calls).len(),
        forall|i: int|
            0 <= i < blocks(calls).len() ==> (#[trigger] outcomes(calls)[i] <==> i < RING_SIZE),
    decreases calls.len(),
{
    let kept = lesser(blocks(calls).len(), RING_SIZE as nat) as int;
    if calls.len() == 0 {
        assert(views.last().queued =~= blocks(calls).take(kept));
    } else {
        lemma_shorter_history(views, calls);
        law_blocks_while_none_is_taken(views.drop_last(), calls.drop_last());
        assert(views.last().queued =~= blocks(calls).take(kept));
    }
}

/// No block after the first launches a transmitter, whichever calls come in between: once a
/// call number `i` has added a block, no later call finds a processor that could launch
/// another, and the frame size and the rings stay as they are.
pub proof fn law_one_launch(views: Seq<ProcessorView>, calls: Seq<Call>, i: int, j: int)
    requires
        history(views, calls),
        0 <= i < j <= calls.len(),
        calls[i] is Add,
    ensures
        views[j].started,
        !views[j].can_start(),
        views[j].samples_per_channel == views[i + 1].samples_per_channel,
        views[j].log == views[i].log,
        views[j].spare_log == views[i].spare_log,
    decreases j,
{
    assert(answers(views[j - 1], calls[j - 1], views[j]));
    if j > i + 1 {
        law_one_launch(views, calls, i, j - 1);
    }
}

/// A transmitter can be launched once: after a launch there is no other, for no frame size,
/// whichever calls come in between or if none does. The calls take nothing from what the
/// processor has queued.
pub proof fn law_no_second_start(
    pre: ProcessorView,
    frame_size: nat,
    t: TransmitterView,
    views: Seq<ProcessorView>,
    calls: Seq<Call>,
)
    requires
        starts_tx(pre, frame_size, views[0], t),
        history(views, calls),
    ensures
        views.last().started,
        views.last().log == pre.log,
        views.last().spare_log == pre.spare_log,
        pre.queued.is_prefix_of(views.last().queued),
        forall|other: nat, post: ProcessorView, u: TransmitterView|
            !#[trigger] starts_tx(views.last(), other, post, u),
    decreases calls.len(),
{
    if calls.len() > 0 {
        lemma_shorter_history(views, calls);
        law_no_second_start(pre, frame_size, t, views.drop_last(), calls.drop_last());
    }
}

} // verus!
