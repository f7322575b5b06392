//! The transmit thread as a state machine.
//!
//! A [`Transmitter`] owns what the transmit thread works on and takes its decisions. The
//! thread carries out one [`Action`] at a time, reports what came of it as an [`Event`],
//! and is told the next action by [`Transmitter::step`]:
//!
//! * while it is offline it connects to the socket, and rests between attempts;
//! * on a connection it greets the server, reads the id that the server assigns, and makes
//!   the header of the connection;
//! * then it waits until frames are queued, and sends as many as it finds, each with its
//!   own timestamp. The buffer of a frame goes back to the spares whether or not the frame
//!   could be sent;
//! * it breaks off the connection when reading or writing fails. A frame that could not be
//!   sent is lost;
//! * it ends once it sees the shutdown flag: when it is about to connect, before and after
//!   it waits, and when it has sent what it found.
use crate::frame::{assemble, stamp, StreamFormat, UNSTAMPED};
use crate::header::lemma_wire_size;
use crate::ring::{
    frame_capacity_out, frame_log_out, frame_push_looks, frame_pushes_seen, frame_slots,
    frames_popped, pop_frame, push_spare, spare_capacity, spare_log_in, spare_pop_looks,
    spare_pops_seen, spares_in, RING_SIZE,
};
use rtrb::{Consumer, Producer};
use vstd::prelude::*;

verus! {

/// How long the transmit thread rests before it connects again, and how long it waits at
/// most before it looks at the shutdown flag, in milliseconds.
pub const RECONNECT_INTERVAL_MS: u64 = 50;

/// Where the transmitter is.
#[derive(Clone, Copy)]
pub enum Phase {
    /// There is no connection, nor is one being made.
    Offline,
    /// A connection is being made.
    Connecting,
    /// The greeting is being written.
    Greeting,
    /// The id is being read.
    AwaitingId,
    /// Nothing is being sent.
    Waiting,
    /// A frame is being written, and `left` more are to follow.
    Sending { left: usize },
    /// The end.
    Stopped,
}

/// What the transmit thread does next.
pub enum Action {
    /// Connect to the socket.
    Connect,
    /// Write all of [`Transmitter::outgoing`] to the connection.
    Send,
    /// Read the two bytes of the id from the connection.
    ReadId,
    /// Wait until frames are queued or the shutdown flag is set.
    Wait,
    /// Drop the connection, if there is one, and rest.
    Rest,
    /// Drop the connection, if there is one, and end.
    Exit,
    /// End with this complaint: frames of this format cannot have a header.
    Abort(String),
}

/// What came of an action.
#[derive(Clone, Copy)]
pub enum Event {
    /// It is time to connect: at first, and after each rest.
    Retry,
    /// Whether the connection was made.
    Connected(bool),
    /// Whether everything was written.
    Sent(bool),
    /// The bytes of the id, if they could be read.
    IdRead(Option<[u8; 2]>),
    /// The wait is over.
    Woken,
}

/// The greeting, `HELO`.
pub open spec fn hello() -> Seq<u8> {
    seq![0x48u8, 0x45u8, 0x4Cu8, 0x4Fu8]
}

/// What contracts say of a transmitter.
#[verifier::ext_equal]
pub struct TransmitterView {
    pub socket_path: Seq<char>,
    pub format: StreamFormat,
    pub phase: Phase,
    /// The frames of the ring, numbered from 0.
    pub log: Map<nat, (u64, Seq<u8>)>,
    /// How many of them have been taken from the ring.
    pub taken: nat,
    /// How many the transmitter has seen queued.
    pub seen: nat,
    /// How often it has looked how many were queued.
    pub looks: nat,
    /// The buffers of the ring of spares, numbered from 0.
    pub spare_log: Map<nat, Seq<u8>>,
    /// The buffers that were put among the spares.
    pub spares: Seq<Seq<u8>>,
    /// How many of these the transmitter has seen taken.
    pub spares_taken: nat,
    /// How often it has looked how many were taken.
    pub spare_looks: nat,
    /// The bytes that are being written.
    pub outgoing: Seq<u8>,
    /// The audio of the frame that is being written.
    pub in_flight: Seq<u8>,
    /// The id of the connection.
    pub id: u64,
    /// The number of the first frame that was taken for the connection.
    pub first: nat,
    /// All bytes that were handed out for writing to the connection.
    pub sent: Seq<u8>,
}

impl TransmitterView {
    /// Whether `event` can come of the action that was told last.
    pub open spec fn expects(self, event: Event) -> bool {
        match event {
            Event::Retry => self.phase is Offline,
            Event::Connected(_) => self.phase is Connecting,
            Event::Sent(_) => self.phase is Greeting || self.phase is Sending,
            Event::IdRead(_) => self.phase is AwaitingId,
            Event::Woken => self.phase is Waiting,
        }
    }

    /// How many frames are known to wait in the ring.
    pub open spec fn on_hand(self) -> int {
        self.seen - self.taken
    }

    /// How many more buffers the ring of spares is known to have room for.
    pub open spec fn spare_room(self) -> int {
        RING_SIZE + self.spares_taken - self.spares.len()
    }

    /// The frames that were taken for the connection.
    pub open spec fn carried(self) -> Seq<(u64, Seq<u8>)> {
        Seq::new((self.taken - self.first) as nat, |k: int| self.log[(self.first + k) as nat])
    }
}

/// The connection is given up.
pub open spec fn rests(pre: TransmitterView, post: TransmitterView, action: Action) -> bool {
    &&& action is Rest
    &&& post == (TransmitterView { phase: Phase::Offline, ..pre })
}

/// The shutdown flag decides between the end and the phase `phase` with the action `go_on`.
pub open spec fn ends_or(
    pre: TransmitterView,
    shutdown: bool,
    post: TransmitterView,
    action: Action,
    phase: Phase,
    go_on: Action,
) -> bool {
    if shutdown {
        &&& action is Exit
        &&& post == (TransmitterView { phase: Phase::Stopped, ..pre })
    } else {
        &&& action == go_on
        &&& post == (TransmitterView { phase, ..pre })
    }
}

/// Of `left` frames that wait in the ring the first is taken and handed out for writing,
/// with its own timestamp. Once there is none left, the shutdown flag decides.
pub open spec fn sends_next(
    pre: TransmitterView,
    left: int,
    shutdown: bool,
    post: TransmitterView,
    action: Action,
) -> bool {
    let (ts, payload) = pre.log[pre.taken];
    let frame = pre.format.frame(pre.id, ts, payload);
    if left == 0 {
        ends_or(pre, shutdown, post, action, Phase::Waiting, Action::Wait)
    } else {
        &&& action is Send
        &&& post == (TransmitterView {
            phase: Phase::Sending { left: (left - 1) as usize },
            taken: pre.taken + 1,
            outgoing: frame,
            in_flight: payload,
            sent: pre.sent + frame,
            ..pre
        })
    }
}

/// Nothing is being sent any more. The audio that was in flight is put among the spares, or
/// is dropped if there is no room for it. Exactly where no room is known does the transmitter
/// look whether spares were taken, of which it never sees more than were put there.
pub open spec fn gives_back(pre: TransmitterView, post: TransmitterView) -> bool {
    &&& post == (TransmitterView {
        phase: Phase::Waiting,
        spares: post.spares,
        spares_taken: post.spares_taken,
        spare_looks: post.spare_looks,
        in_flight: Seq::empty(),
        ..pre
    })
    &&& pre.spares_taken <= post.spares_taken <= pre.spares.len()
    &&& pre.spare_room() > 0 ==> post.spares_taken == pre.spares_taken
    &&& post.spare_looks == pre.spare_looks + if pre.spare_room() > 0 {
        0int
    } else {
        1int
    }
    &&& post.spares == if pre.spares.len() < RING_SIZE + post.spares_taken {
        pre.spares.push(pre.in_flight)
    } else {
        pre.spares
    }
}

/// What [`Transmitter::step`] does.
pub open spec fn steps(
    pre: TransmitterView,
    event: Event,
    shutdown: bool,
    post: TransmitterView,
    action: Action,
) -> bool {
    match event {
        Event::Retry => ends_or(pre, shutdown, post, action, Phase::Connecting, Action::Connect),
        Event::Connected(ok) => if ok {
            &&& action is Send
            &&& post == (TransmitterView {
                phase: Phase::Greeting,
                outgoing: hello(),
                sent: hello(),
                ..pre
            })
        } else {
            rests(pre, post, action)
        },
        Event::IdRead(None) => rests(pre, post, action),
        Event::IdRead(Some(reply)) => if pre.format.valid() {
            ends_or(
                TransmitterView { id: pre.format.id(reply@) as u64, first: pre.taken, ..pre },
                shutdown,
                post,
                action,
                Phase::Waiting,
                Action::Wait,
            )
        } else {
            &&& action matches Action::Abort(text) && text@ == pre.format.refusal()
            &&& post == (TransmitterView { phase: Phase::Stopped, ..pre })
        },
        Event::Woken => if shutdown {
            ends_or(pre, shutdown, post, action, Phase::Waiting, Action::Wait)
        } else {
            &&& pre.seen <= post.seen <= pre.taken + RING_SIZE
            &&& sends_next(
                TransmitterView { seen: post.seen, looks: pre.looks + 1, ..pre },
                post.seen - pre.taken,
                shutdown,
                post,
                action,
            )
        },
        Event::Sent(ok) => match pre.phase {
            Phase::Sending { left } => exists|mid: TransmitterView| #[trigger]
                gives_back(pre, mid) && if ok {
                    sends_next(mid, left as int, shutdown, post, action)
                } else {
                    rests(mid, post, action)
                },
            _ => if ok {
                &&& action is ReadId
                &&& post == (TransmitterView { phase: Phase::AwaitingId, ..pre })
            } else {
                rests(pre, post, action)
            },
        },
    }
}

/// The transmit thread's side of the rings, and its state.
pub struct Transmitter {
    socket_path: String,
    format: StreamFormat,
    frames: Consumer<(u64, Vec<u8>)>,
    spares: Producer<Vec<u8>>,
    phase: Phase,
    id: u64,
    header: Vec<u8>,
    total_size: u32,
    send_buffer: Vec<u8>,
    in_flight: Vec<u8>,
    pts: Ghost<u64>,
    first: Ghost<nat>,
    sent: Ghost<Seq<u8>>,
}

impl View for Transmitter {
    type V = TransmitterView;

    closed spec fn view(&self) -> TransmitterView {
        TransmitterView {
            socket_path: self.socket_path@,
            format: self.format,
            phase: self.phase,
            log: frame_log_out(self.frames),
            taken: frames_popped(self.frames),
            seen: frame_pushes_seen(self.frames),
            looks: frame_push_looks(self.frames),
            spare_log: spare_log_in(self.spares),
            spares: spares_in(self.spares),
            spares_taken: spare_pops_seen(self.spares),
            spare_looks: spare_pop_looks(self.spares),
            outgoing: self.send_buffer@,
            in_flight: self.in_flight@,
            id: self.id,
            first: self.first@,
            sent: self.sent@,
        }
    }
}

impl Transmitter {
    /// Whether a connection is open, with its header made, and all that was handed out for
    /// writing to it are the greeting and the frames that were taken for it.
    closed spec fn connected(&self) -> bool {
        let v = self@;
        &&& v.format.valid()
        &&& self.header@ == v.format.header(v.id, self.pts@).wire()
        &&& self.total_size == v.format.total_size() % 0x1_0000_0000
        &&& v.first <= v.taken
        &&& v.sent == hello() + v.format.frames(v.id, v.carried())
    }

    /// Whether the counts of the rings fit together, and the format fits in memory.
    closed spec fn rings_wf(&self) -> bool {
        let v = self@;
        &&& v.format.wf()
        &&& spare_capacity(self.spares) == RING_SIZE
        &&& frame_capacity_out(self.frames) == RING_SIZE
        &&& v.taken <= v.seen <= v.taken + RING_SIZE
        &&& v.spares_taken <= v.spares.len() <= RING_SIZE + v.spares_taken
    }

    /// Whether the state is one that steps lead to.
    pub closed spec fn wf(&self) -> bool {
        let v = self@;
        &&& self.rings_wf()
        &&& v.phase is Waiting || v.phase is Sending ==> self.connected()
        &&& v.phase is Greeting ==> v.outgoing == hello()
        &&& v.phase is Greeting || v.phase is AwaitingId ==> v.sent == hello()
        &&& v.phase matches Phase::Sending { left } ==> {
            let (ts, payload) = v.log[(v.taken - 1) as nat];
            &&& left <= v.on_hand()
            &&& v.first < v.taken
            &&& v.outgoing == v.format.frame(v.id, ts, payload)
            &&& v.in_flight == payload
        }
    }

    /// A transmitter that is still to make its first connection.
    pub(crate) fn new(
        socket_path: String,
        format: StreamFormat,
        frames: Consumer<(u64, Vec<u8>)>,
        spares: Producer<Vec<u8>>,
    ) -> (t: Transmitter)
        requires
            format.wf(),
            frame_capacity_out(frames) == RING_SIZE,
            frames_popped(frames) <= frame_pushes_seen(frames) <= frames_popped(frames) + RING_SIZE,
            spare_capacity(spares) == RING_SIZE,
            spare_pops_seen(spares) <= spares_in(spares).len() <= RING_SIZE + spare_pops_seen(
                spares,
            ),
        ensures
            t.wf(),
            t@ == (TransmitterView {
                socket_path: socket_path@,
                format,
                phase: Phase::Offline,
                log: frame_log_out(frames),
                taken: frames_popped(frames),
                seen: frame_pushes_seen(frames),
                looks: frame_push_looks(frames),
                spare_log: spare_log_in(spares),
                spares: spares_in(spares),
                spares_taken: spare_pops_seen(spares),
                spare_looks: spare_pop_looks(spares),
                outgoing: Seq::empty(),
                in_flight: Seq::empty(),
                id: 0,
                first: 0,
                sent: Seq::empty(),
            }),
    {
        Transmitter {
            socket_path,
            format,
            frames,
            spares,
            phase: Phase::Offline,
            id: 0,
            header: Vec::new(),
            total_size: 0,
            send_buffer: Vec::new(),
            in_flight: Vec::new(),
            pts: Ghost(0),
            first: Ghost(0),
            sent: Ghost(Seq::empty()),
        }
    }

    /// The path of the socket to connect to.
    pub fn socket_path(&self) -> (path: &str)
        ensures
            path@ == self@.socket_path,
    {
        self.socket_path.as_str()
    }

    /// The bytes to write when the action is to send.
    pub fn outgoing(&self) -> (bytes: &[u8])
        ensures
            bytes@ == self@.outgoing,
    {
        self.send_buffer.as_slice()
    }

    /// Whether `event` can come of the action that was told last.
    pub fn expects(&self, event: &Event) -> (b: bool)
        ensures
            b == self@.expects(*event),
    {
        match event {
            Event::Retry => matches!(self.phase, Phase::Offline),
            Event::Connected(_) => matches!(self.phase, Phase::Connecting),
            Event::Sent(_) => matches!(self.phase, Phase::Greeting | Phase::Sending { .. }),
            Event::IdRead(_) => matches!(self.phase, Phase::AwaitingId),
            Event::Woken => matches!(self.phase, Phase::Waiting),
        }
    }

    fn rest(&mut self) -> (action: Action)
        requires
            old(self).rings_wf(),
        ensures
            final(self).wf(),
            rests(old(self)@, final(self)@, action),
    {
        self.phase = Phase::Offline;
        Action::Rest
    }

    fn exit(&mut self) -> (action: Action)
        requires
            old(self).rings_wf(),
        ensures
            final(self).wf(),
            action is Exit,
            final(self)@ == (TransmitterView { phase: Phase::Stopped, ..old(self)@ }),
    {
        self.phase = Phase::Stopped;
        Action::Exit
    }

    fn wait_or_exit(&mut self, shutdown: bool) -> (action: Action)
        requires
            old(self).rings_wf(),
            old(self).connected(),
        ensures
            final(self).wf(),
            ends_or(
                old(self)@,
                shutdown,
                final(self)@,
                action,
                Phase::Waiting,
                Action::Wait,
            ),
    {
        if shutdown {
            self.exit()
        } else {
            self.phase = Phase::Waiting;
            assert(self@.carried() =~= old(self)@.carried());
            Action::Wait
        }
    }

    fn greet(&mut self) -> (action: Action)
        requires
            old(self).rings_wf(),
        ensures
            final(self).wf(),
            action is Send,
            final(self)@ == (TransmitterView {
                phase: Phase::Greeting,
                outgoing: hello(),
                sent: hello(),
                ..old(self)@
            }),
    {
        self.send_buffer.clear();
        self.send_buffer.push(0x48);
        self.send_buffer.push(0x45);
        self.send_buffer.push(0x4C);
        self.send_buffer.push(0x4F);
        assert(self.send_buffer@ =~= hello());
        self.sent = Ghost(hello());
        self.phase = Phase::Greeting;
        Action::Send
    }

    fn open(&mut self, reply: [u8; 2], shutdown: bool) -> (action: Action)
        requires
            old(self).rings_wf(),
            old(self)@.sent == hello(),
        ensures
            final(self).wf(),
            steps(
                TransmitterView { phase: Phase::AwaitingId, ..old(self)@ },
                Event::IdRead(Some(reply)),
                shutdown,
                final(self)@,
                action,
            ),
    {
        let id: u64 = self.format.assigned_id(reply);
        match self.format.unstamped_header(id) {
            Ok(header) => {
                proof {
                    lemma_wire_size(self.format.header(id, UNSTAMPED));
                }
                self.total_size = self.format.announced_size(&header);
                self.header = header;
                self.id = id;
                self.pts = Ghost(UNSTAMPED);
                self.first = Ghost(frames_popped(self.frames));
                assert(self@.carried() =~= Seq::empty());
                assert(self@.sent =~= hello() + self.format.frames(id, self@.carried()));
                self.wait_or_exit(shutdown)
            },
            Err(text) => {
                self.phase = Phase::Stopped;
                Action::Abort(text)
            },
        }
    }

    /// What the transmit thread does next when it has an open connection, knows that `left`
    /// frames wait in the ring, and means to send them.
    pub fn send_next(&mut self, left: usize, shutdown: bool) -> (action: Action)
        requires
            old(self).wf(),
            old(self)@.phase is Waiting,
            left <= old(self)@.on_hand(),
        ensures
            final(self).wf(),
            sends_next(old(self)@, left as int, shutdown, final(self)@, action),
    {
        if left == 0 {
            return self.wait_or_exit(shutdown);
        }
        let ghost pre = self@;
        match pop_frame(&mut self.frames) {
            Some((ts, payload)) => {
                stamp(&self.format, Ghost(self.id), &mut self.header, ts);
                assemble(self.total_size, &self.header, &payload, &mut self.send_buffer);
                self.in_flight = payload;
                self.phase = Phase::Sending { left: left - 1 };
                self.pts = Ghost(ts);
                self.sent = Ghost(self.sent@ + self.send_buffer@);
                proof {
                    let v = self@;
                    assert(v.carried().drop_last() =~= pre.carried());
                    assert(v.sent =~= hello() + v.format.frames(v.id, v.carried()));
                }
                Action::Send
            },
            None => self.wait_or_exit(shutdown),
        }
    }

    fn give_back(&mut self)
        requires
            old(self).wf(),
            old(self)@.phase is Sending,
        ensures
            final(self).wf(),
            gives_back(old(self)@, final(self)@),
    {
        let mut buffer: Vec<u8> = Vec::new();
        std::mem::swap(&mut buffer, &mut self.in_flight);
        let r = push_spare(&mut self.spares, buffer);
        self.phase = Phase::Waiting;
        assert(self@.carried() =~= old(self)@.carried());
        assert(r is Ok ==> self@.spares =~= old(self)@.spares.push(old(self)@.in_flight));
    }

    /// What the transmit thread does next, after `event` came of the last action and when
    /// the shutdown flag is `shutdown`. How many frames it finds when it wakes depends on the
    /// audio thread; [`Transmitter::send_next`] says what it does for each number of them.
    pub fn step(&mut self, event: Event, shutdown: bool) -> (action: Action)
        requires
            old(self).wf(),
            old(self)@.expects(event),
        ensures
            final(self).wf(),
            steps(old(self)@, event, shutdown, final(self)@, action),
    {
        let ghost pre = self@;
        match event {
            Event::Retry => {
                if shutdown {
                    self.exit()
                } else {
                    self.phase = Phase::Connecting;
                    Action::Connect
                }
            },
            Event::Connected(ok) => {
                if ok {
                    self.greet()
                } else {
                    self.rest()
                }
            },
            Event::IdRead(None) => self.rest(),
            Event::IdRead(Some(reply)) => self.open(reply, shutdown),
            Event::Woken => {
                if shutdown {
                    self.exit()
                } else {
                    let found: usize = frame_slots(&mut self.frames);
                    proof {
                        assert(self@ =~= TransmitterView {
                            seen: self@.seen,
                            looks: pre.looks + 1,
                            ..pre
                        });
                        assert(self@.carried() =~= pre.carried());
                    }
                    self.send_next(found, shutdown)
                }
            },
            Event::Sent(ok) => {
                match self.phase {
                    Phase::Sending { left } => {
                        self.give_back();
                        assert(gives_back(pre, self@));
                        if ok {
                            self.send_next(left, shutdown)
                        } else {
                            self.rest()
                        }
                    },
                    _ => {
                        if ok {
                            self.phase = Phase::AwaitingId;
                            Action::ReadId
                        } else {
                            self.rest()
                        }
                    },
                }
            },
        }
    }
}

/// On an open connection all that was handed out for writing are the greeting and then the
/// frames that were taken for the connection, none left out, twice or out of order.
pub proof fn law_connection_stream(t: &Transmitter)
    requires
        t.wf(),
        t@.phase is Waiting || t@.phase is Sending,
    ensures
        t@.format.valid(),
        t@.first <= t@.taken,
        t@.sent == hello() + t@.format.frames(t@.id, t@.carried()),
{
}

/// Never more frames wait, as far as the transmitter knows, than the ring holds, and so never
/// more are sent after one look. Never more room for spares is known than their ring has.
pub proof fn law_look_is_bounded(t: &Transmitter)
    requires
        t.wf(),
    ensures
        0 <= t@.on_hand() <= RING_SIZE,
        t@.phase matches Phase::Sending { left } ==> left <= t@.on_hand(),
        0 <= t@.spare_room() <= RING_SIZE,
{
}

/// A step changes neither where the transmitter connects nor the format, nor does it move to
/// other rings.
pub proof fn law_step_keeps_task(
    pre: TransmitterView,
    event: Event,
    shutdown: bool,
    post: TransmitterView,
    action: Action,
)
    requires
        steps(pre, event, shutdown, post, action),
    ensures
        post.socket_path == pre.socket_path,
        post.format == pre.format,
        post.log == pre.log,
        post.spare_log == pre.spare_log,
{
}

/// Frames are taken one at a time and in order: a step takes the next frame and hands it out
/// for writing, or takes none.
pub proof fn law_frames_in_order(
    pre: TransmitterView,
    event: Event,
    shutdown: bool,
    post: TransmitterView,
    action: Action,
)
    requires
        steps(pre, event, shutdown, post, action),
    ensures
        post.phase is Sending ==> {
            let (ts, payload) = pre.log[pre.taken];
            &&& action is Send
            &&& post.taken == pre.taken + 1
            &&& post.outgoing == pre.format.frame(pre.id, ts, payload)
            &&& post.sent == pre.sent + post.outgoing
        },
        post.phase !is Sending ==> post.taken == pre.taken,
{
}

/// The buffer of a frame goes back to the spares as soon as the frame was written or could
/// not be written, unless their ring is full: a buffer is dropped only when a look has shown
/// that there is no room for it.
pub proof fn law_buffer_goes_back(
    pre: TransmitterView,
    ok: bool,
    shutdown: bool,
    post: TransmitterView,
    action: Action,
)
    requires
        steps(pre, Event::Sent(ok), shutdown, post, action),
        pre.phase is Sending,
    ensures
        post.spares == pre.spares.push(pre.in_flight) || post.spares == pre.spares
            && post.spare_looks == pre.spare_looks + 1 && post.spare_room() <= 0,
{
}

/// No other step touches the spares.
pub proof fn law_spares_kept(
    pre: TransmitterView,
    event: Event,
    shutdown: bool,
    post: TransmitterView,
    action: Action,
)
    requires
        steps(pre, event, shutdown, post, action),
        pre.phase !is Sending || event !is Sent,
    ensures
        post.spares == pre.spares,
        post.spares_taken == pre.spares_taken,
        post.spare_looks == pre.spare_looks,
{
}

/// How many steps the transmitter takes at most once the shutdown flag is set.
pub open spec fn steps_to_end(v: TransmitterView) -> nat {
    match v.phase {
        Phase::Stopped => 0,
        Phase::Offline => 1,
        Phase::Waiting => 1,
        Phase::AwaitingId => 2,
        Phase::Greeting => 3,
        Phase::Connecting => 4,
        Phase::Sending { left } => left as nat + 2,
    }
}

/// Once the shutdown flag is set the transmitter comes to its end, whatever comes of its
/// actions: each step brings it nearer.
pub proof fn law_shutdown_ends(
    pre: TransmitterView,
    event: Event,
    post: TransmitterView,
    action: Action,
)
    requires
        pre.expects(event),
        steps(pre, event, true, post, action),
    ensures
        steps_to_end(post) < steps_to_end(pre),
{
}

/// The transmitter ends with the actions that say so and with no other, and then nothing can
/// come of an action any more. It ends only when the shutdown flag is set or frames cannot
/// have a header.
pub proof fn law_end_is_final(
    pre: TransmitterView,
    event: Event,
    shutdown: bool,
    post: TransmitterView,
    action: Action,
)
    requires
        steps(pre, event, shutdown, post, action),
    ensures
        post.phase is Stopped <==> action is Exit || action is Abort,
        post.phase is Stopped ==> forall|e: Event| !post.expects(e),
        action is Exit ==> shutdown,
        action is Abort ==> !pre.format.valid(),
{
}

/// A failure to connect, write or read gives the connection up, and is followed by another
/// attempt unless the shutdown flag is set.
pub proof fn law_failure_reconnects(
    pre: TransmitterView,
    event: Event,
    shutdown: bool,
    post: TransmitterView,
    action: Action,
    later: bool,
    after: TransmitterView,
    next: Action,
)
    requires
        event == Event::Connected(false) || event == Event::Sent(false) || event == Event::IdRead(
            None,
        ),
        steps(pre, event, shutdown, post, action),
        steps(post, Event::Retry, later, after, next),
    ensures
        action is Rest,
        post.phase is Offline,
        next is Exit <==> later,
        next is Connect <==> !later,
{
}

/// A run of steps, one after the other.
pub open spec fn run(
    views: Seq<TransmitterView>,
    events: Seq<Event>,
    flags: Seq<bool>,
    actions: Seq<Action>,
) -> bool {
    &&& views.len() == events.len() + 1
    &&& flags.len() == events.len()
    &&& actions.len() == events.len()
    &&& forall|i: int|
        0 <= i < events.len() ==> views[i].expects(#[trigger] events[i]) && steps(
            views[i],
            events[i],
            flags[i],
            views[i + 1],
            actions[i],
        )
}

/// Each wake-up looks at the ring, and if there is a frame, hands it out. So far `queued`
/// frames were queued; the look shows at least these.
pub proof fn law_wake_up_sends(
    pre: TransmitterView,
    post: TransmitterView,
    action: Action,
    queued: nat,
)
    requires
        steps(pre, Event::Woken, false, post, action),
        post.looks > pre.looks ==> post.seen >= queued,
        pre.taken < queued,
    ensures
        post.looks == pre.looks + 1,
        ({
            let (ts, payload) = pre.log[pre.taken];
            &&& action is Send
            &&& post.phase is Sending
            &&& post.taken == pre.taken + 1
            &&& post.outgoing == pre.format.frame(pre.id, ts, payload)
            &&& post.sent == pre.sent + post.outgoing
        }),
{
}

/// A server that accepts the connection and replies with an id is sent the greeting and then
/// the first frame that waits, when the transmitter wakes. So far `queued` frames were
/// queued; a look at the ring shows at least these.
pub proof fn law_served_connection(
    views: Seq<TransmitterView>,
    events: Seq<Event>,
    flags: Seq<bool>,
    actions: Seq<Action>,
    reply: [u8; 2],
    queued: nat,
)
    requires
        run(views, events, flags, actions),
        events == seq![
            Event::Retry,
            Event::Connected(true),
            Event::Sent(true),
            Event::IdRead(Some(reply)),
            Event::Woken,
        ],
        forall|i: int| 0 <= i < flags.len() ==> !#[trigger] flags[i],
        views[0].format.valid(),
        views[0].taken < queued,
        views[5].looks > views[4].looks ==> views[5].seen >= queued,
    ensures
        actions[0] is Connect,
        actions[1] is Send,
        views[2].outgoing == hello(),
        actions[2] is ReadId,
        actions[3] is Wait,
        actions[4] is Send,
        ({
            let start = views[0];
            let (ts, payload) = start.log[start.taken];
            let frame = start.format.frame(start.format.id(reply@) as u64, ts, payload);
            &&& views[5].phase is Sending
            &&& views[5].first == start.taken
            &&& views[5].taken == start.taken + 1
            &&& views[5].outgoing == frame
            &&& views[5].sent == hello() + frame
        }),
{
    assert(steps(views[0], events[0], flags[0], views[1], actions[0]));
    assert(views[1].expects(events[1]));
    assert(steps(views[1], events[1], flags[1], views[2], actions[1]));
    assert(steps(views[2], events[2], flags[2], views[3], actions[2]));
    assert(steps(views[3], events[3], flags[3], views[4], actions[3]));
    assert(steps(views[4], events[4], flags[4], views[5], actions[4]));
    law_wake_up_sends(views[4], views[5], actions[4], queued);
}

/// The next `n` frames of the ring.
pub open spec fn upcoming(v: TransmitterView, n: nat) -> Seq<(u64, Seq<u8>)> {
    Seq::new(n, |i: int| v.log[(v.taken + i) as nat])
}

/// The audio of the next `n` frames of the ring.
pub open spec fn upcoming_audio(v: TransmitterView, n: nat) -> Seq<Seq<u8>> {
    Seq::new(n, |i: int| v.log[(v.taken + i) as nat].1)
}

/// Whether the transmitter wakes and then hands out a frame in each step of a run, because
/// the one before was written.
pub open spec fn sends_all(views: Seq<TransmitterView>, events: Seq<Event>) -> bool {
    &&& events.len() > 0
    &&& events[0] is Woken
    &&& forall|i: int| 0 < i < events.len() ==> #[trigger] events[i] == Event::Sent(true)
    &&& forall|i: int| 0 < i < views.len() ==> (#[trigger] views[i]).phase is Sending
}

/// Whether each look at the ring of spares that is taken in a run shows that at least `taken`
/// of them were taken.
pub open spec fn looks_show(views: Seq<TransmitterView>, taken: nat) -> bool {
    forall|i: int|
        0 <= i < views.len() - 1 && (#[trigger] views[i]).spare_looks < views[i + 1].spare_looks
            ==> views[i + 1].spares_taken >= taken
}

/// When a frame was written and another is handed out, that one is the next of the ring, and
/// the buffer goes back if the ring of spares, of which `taken` were taken, has room.
proof fn lemma_frame_follows(
    pre: TransmitterView,
    shutdown: bool,
    post: TransmitterView,
    action: Action,
    taken: nat,
)
    requires
        steps(pre, Event::Sent(true), shutdown, post, action),
        pre.phase is Sending,
        post.phase is Sending,
        pre.spare_looks < post.spare_looks ==> post.spares_taken >= taken,
        pre.spares.len() < RING_SIZE + taken,
    ensures
        post.format == pre.format,
        post.log == pre.log,
        post.id == pre.id,
        post.taken == pre.taken + 1,
        post.phase->left == pre.phase->left - 1,
        post.in_flight == pre.log[pre.taken].1,
        post.sent == pre.sent + pre.format.frame(
            pre.id,
            pre.log[pre.taken].0,
            pre.log[pre.taken].1,
        ),
        post.spares == pre.spares.push(pre.in_flight),
{
    let mid = choose|mid: TransmitterView| #[trigger]
        gives_back(pre, mid) && sends_next(
            mid,
            pre.phase->left as int,
            shutdown,
            post,
            action,
        );
    assert(gives_back(pre, mid));
}

/// One more frame.
proof fn lemma_one_more(v: TransmitterView, n: nat)
    requires
        n > 0,
    ensures
        v.format.frames(v.id, upcoming(v, n)) == v.format.frames(
            v.id,
            upcoming(v, (n - 1) as nat),
        ) + v.format.frame(
            v.id,
            v.log[(v.taken + n - 1) as nat].0,
            v.log[(v.taken + n - 1) as nat].1,
        ),
        upcoming_audio(v, n) == upcoming_audio(v, (n - 1) as nat).push(
            v.log[(v.taken + n - 1) as nat].1,
        ),
{
    assert(upcoming(v, n).drop_last() =~= upcoming(v, (n - 1) as nat));
    assert(upcoming_audio(v, n) =~= upcoming_audio(v, (n - 1) as nat).push(
        v.log[(v.taken + n - 1) as nat].1,
    ));
}

/// All steps of a run but the last.
proof fn lemma_shorter_run(
    views: Seq<TransmitterView>,
    events: Seq<Event>,
    flags: Seq<bool>,
    actions: Seq<Action>,
    taken: nat,
)
    requires
        run(views, events, flags, actions),
        sends_all(views, events),
        looks_show(views, taken),
        events.len() > 1,
    ensures
        run(views.drop_last(), events.drop_last(), flags.drop_last(), actions.drop_last()),
        sends_all(views.drop_last(), events.drop_last()),
        looks_show(views.drop_last(), taken),
{
    let shorter = views.drop_last();
    let earlier = events.drop_last();
    assert forall|i: int| 0 <= i < earlier.len() implies shorter[i].expects(
        #[trigger] earlier[i],
    ) && steps(
        shorter[i],
        earlier[i],
        flags.drop_last()[i],
        shorter[i + 1],
        actions.drop_last()[i],
    ) by {
        assert(events[i] == earlier[i]);
    }
    assert forall|i: int| 0 < i < earlier.len() implies #[trigger] earlier[i] == Event::Sent(
        true,
    ) by {
        assert(events[i] == Event::Sent(true));
    }
    assert forall|i: int| 0 < i < shorter.len() implies (
    #[trigger] shorter[i]).phase is Sending by {
        assert(views[i].phase is Sending);
    }
    assert forall|i: int|
        0 <= i < shorter.len() - 1 && (#[trigger] shorter[i]).spare_looks < shorter[i
            + 1].spare_looks implies shorter[i + 1].spares_taken >= taken by {
        assert(views[i] == shorter[i]);
    }
}

/// When a run hands out `n` frames, these are the next `n` frames of the ring, in order; they
/// have left the ring, and the bytes handed out are theirs. All buffers but the last have
/// gone back, if the ring of spares, of which `taken` were taken, has room for all of them.
pub proof fn law_run_of_frames(
    views: Seq<TransmitterView>,
    events: Seq<Event>,
    flags: Seq<bool>,
    actions: Seq<Action>,
    taken: nat,
)
    requires
        run(views, events, flags, actions),
        sends_all(views, events),
        looks_show(views, taken),
        views[0].spares.len() + events.len() <= RING_SIZE + taken,
    ensures
        ({
            let n = events.len();
            let start = views[0];
            let end = views[n as int];
            &&& end.format == start.format
            &&& end.log == start.log
            &&& end.id == start.id
            &&& end.taken == start.taken + n
            &&& end.phase->left == views[1].phase->left - (n - 1)
            &&& end.in_flight == start.log[(start.taken + n - 1) as nat].1
            &&& end.sent == start.sent + start.format.frames(start.id, upcoming(start, n))
            &&& end.spares == start.spares + upcoming_audio(start, (n - 1) as nat)
        }),
    decreases events.len(),
{
    let n = events.len();
    let start = views[0];
    let end = views[n as int];
    assert(steps(views[n - 1], events[n - 1], flags[n - 1], end, actions[n - 1]));
    lemma_one_more(start, n);
    if n == 1 {
        assert(start.format.frames(start.id, upcoming(start, 0)) =~= Seq::<u8>::empty());
        assert(end.sent =~= start.sent + start.format.frames(start.id, upcoming(start, 1)));
        assert(end.spares =~= start.spares + upcoming_audio(start, 0));
    } else {
        let before = views[n - 1];
        lemma_shorter_run(views, events, flags, actions, taken);
        law_run_of_frames(
            views.drop_last(),
            events.drop_last(),
            flags.drop_last(),
            actions.drop_last(),
            taken,
        );
        assert(events[n - 1] == Event::Sent(true));
        assert(before.phase is Sending);
        lemma_frame_follows(before, flags[n - 1], end, actions[n - 1], taken);
        lemma_one_more(start, (n - 1) as nat);
        assert(end.sent =~= start.sent + start.format.frames(start.id, upcoming(start, n)));
        assert(end.spares =~= start.spares + upcoming_audio(start, (n - 1) as nat));
    }
}

/// When the write of the last of `n` frames fails, the connection is given up, all `n` frames
/// have left the ring, and their buffers have gone back, the last one's too, if the ring of
/// spares, of which `taken` were taken, has room for all of them. The frame is not handed
/// out again: [`law_next_frame`] says which one is next.
pub proof fn law_failed_write(
    views: Seq<TransmitterView>,
    events: Seq<Event>,
    flags: Seq<bool>,
    actions: Seq<Action>,
    taken: nat,
    shutdown: bool,
    post: TransmitterView,
    action: Action,
)
    requires
        run(views, events, flags, actions),
        sends_all(views, events),
        looks_show(views.push(post), taken),
        views[0].spares.len() + events.len() <= RING_SIZE + taken,
        steps(views.last(), Event::Sent(false), shutdown, post, action),
    ensures
        action is Rest,
        post.phase is Offline,
        post.log == views[0].log,
        post.taken == views[0].taken + events.len(),
        post.spares == views[0].spares + upcoming_audio(views[0], events.len()),
{
    let n = events.len();
    let all = views.push(post);
    let last = views[n as int];
    assert(looks_show(views, taken)) by {
        assert forall|i: int|
            0 <= i < views.len() - 1 && (#[trigger] views[i]).spare_looks < views[i
                + 1].spare_looks implies views[i + 1].spares_taken >= taken by {
            assert(all[i] == views[i]);
        }
    }
    law_run_of_frames(views, events, flags, actions, taken);
    assert(all[n as int] == last);
    assert(post.spares == last.spares.push(last.in_flight));
    assert(post.spares =~= views[0].spares + upcoming_audio(views[0], n));
}

/// However many steps pass without handing out a frame, connections lost and made among them,
/// the frame that is handed out next is the first that was not taken before. If there was no
/// connection, it is the first frame of the connection that is made.
pub proof fn law_next_frame(
    views: Seq<TransmitterView>,
    events: Seq<Event>,
    flags: Seq<bool>,
    actions: Seq<Action>,
)
    requires
        run(views, events, flags, actions),
        events.len() > 0,
        forall|i: int| 0 < i < events.len() ==> (#[trigger] views[i]).phase !is Sending,
        views.last().phase is Sending,
    ensures
        ({
            let (ts, payload) = views[0].log[views[0].taken];
            let end = views.last();
            &&& actions.last() is Send
            &&& end.taken == views[0].taken + 1
            &&& end.outgoing == views[0].format.frame(end.id, ts, payload)
            &&& views[0].phase is Offline ==> end.first == views[0].taken
        }),
{
    let n = events.len();
    lemma_nothing_taken(views, events, flags, actions, (n - 1) as nat);
    assert(views[n - 1].expects(events[n - 1]));
}

/// Steps that hand out no frame take none.
proof fn lemma_nothing_taken(
    views: Seq<TransmitterView>,
    events: Seq<Event>,
    flags: Seq<bool>,
    actions: Seq<Action>,
    n: nat,
)
    requires
        run(views, events, flags, actions),
        n < views.len(),
        forall|i: int| 0 < i <= n ==> (#[trigger] views[i]).phase !is Sending,
    ensures
        views[n as int].taken == views[0].taken,
        views[n as int].log == views[0].log,
        views[n as int].format == views[0].format,
        views[0].phase is Offline && views[n as int].phase is Waiting ==> views[n as int].first
            == views[0].taken,
    decreases n,
{
    if n > 0 {
        lemma_nothing_taken(views, events, flags, actions, (n - 1) as nat);
        assert(views[n - 1].expects(events[n - 1]));
        assert(views[n as int].phase !is Sending);
        if n > 1 {
            assert(views[n - 1].phase !is Sending);
        }
    }
}

} // verus!
