//! How the transmit thread conducts itself, step by step and connection by connection.
//!
//! The laws on single steps say of each event what a call of [`Transmitter::step`] leads to;
//! the laws on runs say what comes of many steps in a row.
use crate::guarantees::{law_frame_bytes, law_frame_header, law_refusal, law_valid};
use crate::header::{decimal, read_header};
use crate::transmitter::{
    law_frames_in_order, law_look_is_bounded, law_served_connection, law_step_keeps_task, run,
    steps, Action, Event, Phase, Transmitter, TransmitterView,
};
use frame_header::{EncodingFlag, Endianness};
use vstd::prelude::*;

verus! {

/// The path to connect to is the one that the transmitter was made for.
pub proof fn law_socket_path(t: &Transmitter, path: &str)
    requires
        call_ensures(Transmitter::socket_path, (t,), path),
    ensures
        path@ == t@.socket_path,
{
}

/// The bytes to write are those that the last step made.
pub proof fn law_outgoing(t: &Transmitter, bytes: &[u8])
    requires
        call_ensures(Transmitter::outgoing, (t,), bytes),
    ensures
        bytes@ == t@.outgoing,
{
}

/// Each phase has its events, and the end has none.
pub proof fn law_expects(t: &Transmitter, event: &Event, b: bool)
    requires
        call_ensures(Transmitter::expects, (t, event), b),
    ensures
        t@.phase is Offline ==> (b <==> *event is Retry),
        t@.phase is Connecting ==> (b <==> *event is Connected),
        t@.phase is Greeting ==> (b <==> *event is Sent),
        t@.phase is AwaitingId ==> (b <==> *event is IdRead),
        t@.phase is Waiting ==> (b <==> *event is Woken),
        t@.phase is Sending ==> (b <==> *event is Sent),
        t@.phase is Stopped ==> !b,
{
}

/// A transmitter takes every event that can come of its last action, whatever the shutdown flag
/// says, and goes on to take the next.
pub proof fn law_step_accepts(t: &mut Transmitter, event: Event, shutdown: bool, action: Action)
    requires
        old(t).wf(),
    ensures
        old(t)@.phase is Offline && event is Retry ==> call_requires(
            Transmitter::step,
            (t, event, shutdown),
        ),
        old(t)@.phase is Connecting && event is Connected ==> call_requires(
            Transmitter::step,
            (t, event, shutdown),
        ),
        old(t)@.phase is Greeting && event is Sent ==> call_requires(
            Transmitter::step,
            (t, event, shutdown),
        ),
        old(t)@.phase is AwaitingId && event is IdRead ==> call_requires(
            Transmitter::step,
            (t, event, shutdown),
        ),
        old(t)@.phase is Waiting && event is Woken ==> call_requires(
            Transmitter::step,
            (t, event, shutdown),
        ),
        old(t)@.phase is Sending && event is Sent ==> call_requires(
            Transmitter::step,
            (t, event, shutdown),
        ),
        call_ensures(Transmitter::step, (t, event, shutdown), action) ==> final(t).wf(),
{
}

/// When it is time to connect, the shutdown flag decides whether it connects or ends.
pub proof fn law_step_retry(t: &mut Transmitter, shutdown: bool, action: Action)
    requires
        call_ensures(Transmitter::step, (t, Event::Retry, shutdown), action),
    ensures
        shutdown ==> action is Exit,
        shutdown ==> final(t)@ == (TransmitterView { phase: Phase::Stopped, ..old(t)@ }),
        !shutdown ==> action is Connect,
        !shutdown ==> final(t)@ == (TransmitterView { phase: Phase::Connecting, ..old(t)@ }),
{
}

/// On a connection the first thing written is `HELO`; without one it rests.
pub proof fn law_step_connected(t: &mut Transmitter, ok: bool, shutdown: bool, action: Action)
    requires
        call_ensures(Transmitter::step, (t, Event::Connected(ok), shutdown), action),
    ensures
        ok ==> action is Send,
        ok ==> final(t)@.phase is Greeting,
        ok ==> final(t)@.outgoing == seq![0x48u8, 0x45u8, 0x4Cu8, 0x4Fu8],
        ok ==> final(t)@ == (TransmitterView {
            phase: Phase::Greeting,
            outgoing: final(t)@.outgoing,
            sent: final(t)@.outgoing,
            ..old(t)@
        }),
        !ok ==> action is Rest,
        !ok ==> final(t)@ == (TransmitterView { phase: Phase::Offline, ..old(t)@ }),
{
}

/// Once the greeting is written it reads the id; if it cannot be written it rests.
pub proof fn law_step_greeted(t: &mut Transmitter, ok: bool, shutdown: bool, action: Action)
    requires
        call_ensures(Transmitter::step, (t, Event::Sent(ok), shutdown), action),
        old(t)@.phase is Greeting,
    ensures
        ok ==> action is ReadId,
        ok ==> final(t)@ == (TransmitterView { phase: Phase::AwaitingId, ..old(t)@ }),
        !ok ==> action is Rest,
        !ok ==> final(t)@ == (TransmitterView { phase: Phase::Offline, ..old(t)@ }),
{
}

/// If the id cannot be read it rests.
pub proof fn law_step_no_id(t: &mut Transmitter, shutdown: bool, action: Action)
    requires
        call_ensures(Transmitter::step, (t, Event::IdRead(None), shutdown), action),
    ensures
        action is Rest,
        final(t)@ == (TransmitterView { phase: Phase::Offline, ..old(t)@ }),
{
}

/// With the server's reply the id of the connection is settled: it is the fixed one, or else
/// the number that was replied, lowest byte first. The frames of the connection begin with the
/// first that was not taken. The shutdown flag decides whether it waits for frames or ends.
/// Where frames cannot have a header it ends with the reason.
pub proof fn law_step_id(t: &mut Transmitter, reply: [u8; 2], shutdown: bool, action: Action)
    requires
        call_ensures(Transmitter::step, (t, Event::IdRead(Some(reply)), shutdown), action),
    ensures
        ({
            let f = old(t)@.format;
            let id = match f.frame_id {
                Some(fixed) => fixed as int,
                None => reply@[0] + 0x100 * reply@[1],
            };
            let samples = f.samples_per_channel as int % 0x1_0000;
            if 1 <= f.num_channels <= 16 && samples <= 4095 && (f.sample_rate == 16000
                || f.sample_rate == 44100 || f.sample_rate == 48000 || f.sample_rate == 96000) {
                &&& final(t)@.id == id
                &&& final(t)@ == (TransmitterView {
                    phase: if shutdown {
                        Phase::Stopped
                    } else {
                        Phase::Waiting
                    },
                    id: id as u64,
                    first: old(t)@.taken,
                    ..old(t)@
                })
                &&& shutdown ==> action is Exit
                &&& !shutdown ==> action is Wait
            } else {
                &&& final(t)@ == (TransmitterView { phase: Phase::Stopped, ..old(t)@ })
                &&& action matches Action::Abort(text) && {
                    &&& f.num_channels < 1 || f.num_channels > 16 ==> text@
                        == "Channel count must be between 1 and 16"@
                    &&& 1 <= f.num_channels <= 16 && samples > 4095 ==> text@
                        == "Sample size exceeds maximum value (4095)"@
                    &&& 1 <= f.num_channels <= 16 && samples <= 4095 ==> text@
                        == "Invalid sample rate: "@ + decimal(f.sample_rate as nat)
                        + ". Must be one of: [16000, 44100, 48000, 96000]"@
                }
            }
        }),
{
    law_valid(old(t)@.format);
    law_refusal(old(t)@.format);
}

/// When the wait is over it ends if the shutdown flag is set. Otherwise it looks at the ring:
/// if no frame is there it waits on; if there are any it takes the first of them, hands out
/// its bytes and means to send all the others after it.
pub proof fn law_step_woken(t: &mut Transmitter, shutdown: bool, action: Action)
    requires
        old(t).wf(),
        call_ensures(Transmitter::step, (t, Event::Woken, shutdown), action),
    ensures
        shutdown ==> action is Exit,
        shutdown ==> final(t)@ == (TransmitterView { phase: Phase::Stopped, ..old(t)@ }),
        !shutdown ==> {
            let found = final(t)@.seen - old(t)@.taken;
            let (ts, payload) = old(t)@.log[old(t)@.taken];
            let frame = old(t)@.format.frame(old(t)@.id, ts, payload);
            &&& old(t)@.seen <= final(t)@.seen
            &&& 0 <= found <= 256
            &&& final(t)@.looks == old(t)@.looks + 1
            &&& found == 0 ==> action is Wait
            &&& found == 0 ==> final(t)@ == (TransmitterView {
                phase: Phase::Waiting,
                seen: final(t)@.seen,
                looks: final(t)@.looks,
                ..old(t)@
            })
            &&& found > 0 ==> action is Send
            &&& found > 0 ==> final(t)@.phase is Sending && final(t)@.phase->left == found - 1
            &&& found > 0 ==> final(t)@ == (TransmitterView {
                phase: final(t)@.phase,
                taken: old(t)@.taken + 1,
                seen: final(t)@.seen,
                looks: final(t)@.looks,
                outgoing: frame,
                in_flight: payload,
                sent: old(t)@.sent + frame,
                ..old(t)@
            })
        },
{
    law_look_is_bounded(&*old(t));
}

/// When a frame was written and `left` more were found, the next one is taken and handed out,
/// whatever the format is and whatever the shutdown flag says; only when none is left does it
/// wait, or end if the flag is set. When the frame could not be written it rests, and takes no
/// other. Either way the buffer of the frame goes back first, unless a look at the spares
/// shows that 256 of them were put there and not taken; it looks exactly when it knows of 256.
pub proof fn law_step_sent(
    t: &mut Transmitter,
    left: usize,
    ok: bool,
    shutdown: bool,
    action: Action,
)
    requires
        call_ensures(Transmitter::step, (t, Event::Sent(ok), shutdown), action),
        old(t)@.phase == (Phase::Sending { left }),
    ensures
        ({
            let pre = old(t)@;
            let post = final(t)@;
            let (ts, payload) = pre.log[pre.taken];
            let frame = pre.format.frame(pre.id, ts, payload);
            &&& pre.spares.len() < 256 + pre.spares_taken ==> post.spares_taken == pre.spares_taken
                && post.spare_looks == pre.spare_looks
            &&& pre.spares.len() >= 256 + pre.spares_taken ==> pre.spares_taken
                <= post.spares_taken <= pre.spares.len() && post.spare_looks == pre.spare_looks + 1
            &&& pre.spares.len() < 256 + post.spares_taken ==> post.spares == pre.spares.push(
                pre.in_flight,
            )
            &&& pre.spares.len() >= 256 + post.spares_taken ==> post.spares == pre.spares
            &&& ok && left > 0 ==> {
                &&& action is Send
                &&& post.phase is Sending
                &&& post.phase->left == left - 1
                &&& post == (TransmitterView {
                    phase: post.phase,
                    taken: pre.taken + 1,
                    spares: post.spares,
                    spares_taken: post.spares_taken,
                    spare_looks: post.spare_looks,
                    outgoing: frame,
                    in_flight: payload,
                    sent: pre.sent + frame,
                    ..pre
                })
            }
            &&& !ok || left == 0 ==> {
                &&& !ok ==> action is Rest && post.phase is Offline
                &&& ok && !shutdown ==> action is Wait && post.phase is Waiting
                &&& ok && shutdown ==> action is Exit && post.phase is Stopped
                &&& post == (TransmitterView {
                    phase: post.phase,
                    spares: post.spares,
                    spares_taken: post.spares_taken,
                    spare_looks: post.spare_looks,
                    in_flight: Seq::empty(),
                    ..pre
                })
            }
        }),
{
}

/// Of `left` frames that wait the first is taken and handed out, and all the others are meant
/// to follow. If there is none, the shutdown flag decides whether it waits or ends.
pub proof fn law_send_next(t: &mut Transmitter, left: usize, shutdown: bool, action: Action)
    requires
        call_ensures(Transmitter::send_next, (t, left, shutdown), action),
    ensures
        ({
            let (ts, payload) = old(t)@.log[old(t)@.taken];
            let frame = old(t)@.format.frame(old(t)@.id, ts, payload);
            &&& left > 0 ==> {
                &&& action is Send
                &&& final(t)@.phase is Sending
                &&& final(t)@.phase->left == left - 1
                &&& final(t)@ == (TransmitterView {
                    phase: final(t)@.phase,
                    taken: old(t)@.taken + 1,
                    outgoing: frame,
                    in_flight: payload,
                    sent: old(t)@.sent + frame,
                    ..old(t)@
                })
            }
            &&& left == 0 ==> {
                &&& !shutdown ==> action is Wait && final(t)@.phase is Waiting
                &&& shutdown ==> action is Exit && final(t)@.phase is Stopped
                &&& final(t)@ == (TransmitterView { phase: final(t)@.phase, ..old(t)@ })
            }
        }),
{
}

/// All frames that a look finds are sent: when it finds `n` of them and each is written, they
/// are handed out one after the other, in the order of the ring, whatever the shutdown flag
/// says meanwhile, and only then does it wait for more, or end if the flag is set. What it has
/// then taken is all that the look has shown.
pub proof fn law_all_found_are_sent(
    views: Seq<TransmitterView>,
    events: Seq<Event>,
    flags: Seq<bool>,
    actions: Seq<Action>,
    n: int,
)
    requires
        run(views, events, flags, actions),
        views[0].taken <= views[0].seen,
        n >= 0,
        events.len() == n + 1,
        n == views[1].seen - views[0].taken,
        events[0] is Woken,
        !flags[0],
        forall|i: int| 0 < i <= n ==> #[trigger] events[i] == Event::Sent(true),
    ensures
        forall|i: int|
            #![trigger views[i]]
            0 < i <= n ==> {
                let (ts, payload) = views[0].log[(views[0].taken + i - 1) as nat];
                &&& actions[i - 1] is Send
                &&& views[i].phase is Sending
                &&& views[i].phase->left == n - i
                &&& views[i].taken == views[0].taken + i
                &&& views[i].outgoing == views[0].format.frame(views[0].id, ts, payload)
            },
        views[n + 1].taken == views[0].taken + n,
        views[n + 1].seen == views[0].taken + n,
        n == 0 || !flags[n] ==> actions[n] is Wait && views[n + 1].phase is Waiting,
        n > 0 && flags[n] ==> actions[n] is Exit && views[n + 1].phase is Stopped,
{
    assert forall|i: int| #![trigger views[i]] 0 < i <= n implies {
        let (ts, payload) = views[0].log[(views[0].taken + i - 1) as nat];
        &&& actions[i - 1] is Send
        &&& views[i].phase is Sending
        &&& views[i].phase->left == n - i
        &&& views[i].taken == views[0].taken + i
        &&& views[i].outgoing == views[0].format.frame(views[0].id, ts, payload)
    } by {
        lemma_found_are_sent(views, events, flags, actions, n, i);
    }
    if n > 0 {
        lemma_found_are_sent(views, events, flags, actions, n, n);
        assert(events[n] == Event::Sent(true));
    }
    assert(steps(
        views[n],
        events[n],
        flags[n],
        views[n + 1],
        actions[n],
    ));
}

/// Frame number `i` of those that a look found.
proof fn lemma_found_are_sent(
    views: Seq<TransmitterView>,
    events: Seq<Event>,
    flags: Seq<bool>,
    actions: Seq<Action>,
    n: int,
    i: int,
)
    requires
        run(views, events, flags, actions),
        views[0].taken <= views[0].seen,
        n >= 0,
        events.len() == n + 1,
        n == views[1].seen - views[0].taken,
        events[0] is Woken,
        !flags[0],
        forall|i: int| 0 < i <= n ==> #[trigger] events[i] == Event::Sent(true),
        0 < i <= n,
    ensures
        ({
            let (ts, payload) = views[0].log[(views[0].taken + i - 1) as nat];
            &&& actions[i - 1] is Send
            &&& views[i].phase is Sending
            &&& views[i].phase->left == n - i
            &&& views[i].taken == views[0].taken + i
            &&& views[i].seen == views[1].seen
            &&& views[i].log == views[0].log
            &&& views[i].format == views[0].format
            &&& views[i].id == views[0].id
            &&& views[i].outgoing == views[0].format.frame(views[0].id, ts, payload)
        }),
    decreases i,
{
    assert(steps(views[i - 1], events[i - 1], flags[i - 1], views[i], actions[i - 1]));
    if i > 1 {
        lemma_found_are_sent(views, events, flags, actions, n, i - 1);
        assert(events[i - 1] == Event::Sent(true));
    }
}

/// The frames of a connection say what the user asked for. From the server's reply on, until
/// there is another reply, each frame that is handed out is that of the last block taken: its
/// header carries the fixed id, or else the number that the server replied, lowest byte first;
/// the sample rate, the channels and the sample count of the format; and the block's
/// timestamp. After the header comes the block's audio, unchanged.
pub proof fn law_frames_of_a_connection(
    views: Seq<TransmitterView>,
    events: Seq<Event>,
    flags: Seq<bool>,
    actions: Seq<Action>,
    reply: [u8; 2],
    i: int,
)
    requires
        run(views, events, flags, actions),
        events.len() > 0,
        events[0] == Event::IdRead(Some(reply)),
        forall|k: int| 0 < k < events.len() ==> #[trigger] events[k] !is IdRead,
        0 < i <= events.len(),
        views[i].phase is Sending,
    ensures
        ({
            let f = views[0].format;
            let (ts, block) = views[0].log[(views[i].taken - 1) as nat];
            let s = views[i].outgoing;
            &&& actions[i - 1] is Send
            &&& s.len() == 24 + block.len()
            &&& s[0] + 0x100 * s[1] + 0x1_0000 * s[2] + 0x100_0000 * s[3] == (f.samples_per_channel
                * f.num_channels * 3 + 24) % 0x1_0000_0000
            &&& s.skip(24) == block
            &&& read_header(s.skip(4)) matches Some(h) && {
                &&& f.frame_id matches Some(fixed) ==> h.id == Some(fixed as u64)
                &&& f.frame_id is None ==> h.id == Some((reply@[0] + 0x100 * reply@[1]) as u64)
                &&& h.pts == Some(ts)
                &&& h.sample_rate == f.sample_rate
                &&& h.channels == f.num_channels
                &&& h.sample_size == f.samples_per_channel as int % 0x1_0000
                &&& h.bits_per_sample == 24
                &&& h.encoding == EncodingFlag::PCMSigned
                &&& h.endianness == Endianness::LittleEndian
            }
        }),
{
    lemma_connection_kept(views, events, flags, actions, reply, i - 1);
    let pre = views[i - 1];
    let f = views[0].format;
    assert(steps(pre, events[i - 1], flags[i - 1], views[i], actions[i - 1]));
    if i == 1 {
        assert(views[1].phase !is Sending);
    }
    law_frames_in_order(pre, events[i - 1], flags[i - 1], views[i], actions[i - 1]);
    law_valid(f);
    let (ts, block) = pre.log[pre.taken];
    law_frame_bytes(f, pre.id, ts, block);
    law_frame_header(f, pre.id, ts, block);
}

/// What a reply settles stays settled until the next.
proof fn lemma_connection_kept(
    views: Seq<TransmitterView>,
    events: Seq<Event>,
    flags: Seq<bool>,
    actions: Seq<Action>,
    reply: [u8; 2],
    n: int,
)
    requires
        run(views, events, flags, actions),
        events.len() > 0,
        events[0] == Event::IdRead(Some(reply)),
        forall|k: int| 0 < k < events.len() ==> #[trigger] events[k] !is IdRead,
        0 <= n < views.len(),
    ensures
        views[n].format == views[0].format,
        views[n].log == views[0].log,
        n > 0 && (views[n].phase is Waiting || views[n].phase is Sending)
            ==> views[0].format.valid(),
        n > 0 && views[0].format.valid() ==> views[n].id == match views[0].format.frame_id {
            Some(fixed) => fixed as int,
            None => reply@[0] + 0x100 * reply@[1],
        },
    decreases n,
{
    if n > 0 {
        lemma_connection_kept(views, events, flags, actions, reply, n - 1);
        assert(views[n - 1].expects(events[n - 1]));
        law_step_keeps_task(
            views[n - 1],
            events[n - 1],
            flags[n - 1],
            views[n],
            actions[n - 1],
        );
    }
}

/// A server that accepts, reads `HELO` and replies is sent the first block that waits: what is
/// written are the four bytes of the greeting and one frame, whose header says what the user
/// asked for and when the block is due, and whose audio is the block's. So far `queued` blocks
/// were queued; a look at the ring shows at least these.
pub proof fn law_first_frame_of_a_connection(
    views: Seq<TransmitterView>,
    events: Seq<Event>,
    flags: Seq<bool>,
    actions: Seq<Action>,
    reply: [u8; 2],
    queued: nat,
)
    requires
        run(views, events, flags, actions),
        events == seq![
            Event::Retry,
            Event::Connected(true),
            Event::Sent(true),
            Event::IdRead(Some(reply)),
            Event::Woken,
        ],
        forall|i: int| 0 <= i < flags.len() ==> !#[trigger] flags[i],
        1 <= views[0].format.num_channels <= 16,
        views[0].format.sample_rate == 16000 || views[0].format.sample_rate == 44100
            || views[0].format.sample_rate == 48000 || views[0].format.sample_rate == 96000,
        views[0].format.samples_per_channel as int % 0x1_0000 <= 4095,
        views[0].taken < queued,
        views[5].looks > views[4].looks ==> views[5].seen >= queued,
    ensures
        actions[0] is Connect,
        actions[1] is Send,
        views[2].outgoing == seq![0x48u8, 0x45u8, 0x4Cu8, 0x4Fu8],
        actions[2] is ReadId,
        actions[3] is Wait,
        actions[4] is Send,
        ({
            let f = views[0].format;
            let (ts, block) = views[0].log[views[0].taken];
            let s = views[5].outgoing;
            &&& views[5].taken == views[0].taken + 1
            &&& views[5].sent == seq![0x48u8, 0x45u8, 0x4Cu8, 0x4Fu8] + s
            &&& s.len() == 24 + block.len()
            &&& s[0] + 0x100 * s[1] + 0x1_0000 * s[2] + 0x100_0000 * s[3] == (f.samples_per_channel
                * f.num_channels * 3 + 24) % 0x1_0000_0000
            &&& s.skip(24) == block
            &&& read_header(s.skip(4)) matches Some(h) && {
                &&& f.frame_id matches Some(fixed) ==> h.id == Some(fixed as u64)
                &&& f.frame_id is None ==> h.id == Some((reply@[0] + 0x100 * reply@[1]) as u64)
                &&& h.pts == Some(ts)
                &&& h.sample_rate == f.sample_rate
                &&& h.channels == f.num_channels
                &&& h.sample_size == f.samples_per_channel as int % 0x1_0000
                &&& h.bits_per_sample == 24
            }
        }),
{
    let f = views[0].format;
    law_valid(f);
    law_served_connection(views, events, flags, actions, reply, queued);
    let (ts, block) = views[0].log[views[0].taken];
    law_frame_bytes(f, f.id(reply@) as u64, ts, block);
    law_frame_header(f, f.id(reply@) as u64, ts, block);
}

} // verus!
