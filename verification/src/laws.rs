//! What holds of the two threads together.
use crate::frame::{law_receive_frames, receive};
use crate::processor::{adds, law_queue_is_log, AudioProcessor, ProcessorView};
use crate::signal::Signal;
use crate::transmitter::{
    hello, law_connection_stream, law_served_connection, law_wake_up_sends, run, steps, Action,
    Event, Transmitter, TransmitterView,
};
use vstd::prelude::*;

verus! {

/// What the server makes of an open connection is what the audio thread queued: after the
/// greeting it receives the blocks from some block on, each unchanged, in the order in which
/// they were queued, under a header that gives the block's timestamp, the id and the format.
/// The transmitter `t` is one that works on the rings of the processor `p`; a block that the
/// processor has queued by the time it is looked at is compared. It holds of blocks that
/// have the frame size, in frames whose length 32 bits can say.
pub proof fn law_received_as_queued(p: &AudioProcessor, t: &Transmitter)
    requires
        t.wf(),
        t@.phase is Waiting || t@.phase is Sending,
        t@.log == p@.log,
        t@.format.total_size() < 0x1_0000_0000,
        forall|k: int|
            0 <= k < t@.carried().len() ==> (#[trigger] t@.carried()[k]).1.len()
                == t@.format.frame_size(),
    ensures
        t@.sent.take(hello().len() as int) == hello(),
        ({
            let received = receive(t@.sent.skip(hello().len() as int));
            &&& received.len() == t@.taken - t@.first
            &&& forall|k: int|
                #![trigger received[k]]
                0 <= k < received.len() && t@.first + k < p@.queued.len() ==> {
                    let (ts, block) = p@.queued[t@.first + k];
                    received[k] == (t@.format.header(t@.id, ts), block)
                }
        }),
{
    law_connection_stream(t);
    law_queue_is_log(p);
    law_receive_frames(t@.format, t@.id, t@.carried());
    let n = hello().len() as int;
    assert(t@.sent.skip(n) =~= t@.format.frames(t@.id, t@.carried()));
    assert(t@.sent.take(n) =~= hello());
    let received = receive(t@.sent.skip(n));
    assert forall|k: int|
        #![trigger received[k]]
        0 <= k < received.len() && t@.first + k < p@.queued.len() implies ({
        let (ts, block) = p@.queued[t@.first + k];
        received[k] == (t@.format.header(t@.id, ts), block)
    }) by {
        assert(t@.carried()[k] == t@.log[(t@.first + k) as nat]);
        assert(p@.queued[t@.first + k] == p@.log[(t@.first + k) as nat]);
    }
}

/// A server that accepts the connection and replies with an id receives, once the transmitter
/// wakes, the greeting and the first block that waits, unchanged, under a header that gives
/// its timestamp, the id and the format. The views are those of a transmitter that works on
/// the rings of the processor `p`; its look at the ring shows what `p` has queued. It holds
/// of a block that has the frame size, in a frame whose length 32 bits can say.
pub proof fn law_served_block_is_received(
    p: &AudioProcessor,
    views: Seq<TransmitterView>,
    events: Seq<Event>,
    flags: Seq<bool>,
    actions: Seq<Action>,
    reply: [u8; 2],
)
    requires
        run(views, events, flags, actions),
        events == seq![
            Event::Retry,
            Event::Connected(true),
            Event::Sent(true),
            Event::IdRead(Some(reply)),
            Event::Woken,
        ],
        forall|i: int| 0 <= i < flags.len() ==> !#[trigger] flags[i],
        views[0].format.valid(),
        views[0].format.total_size() < 0x1_0000_0000,
        views[0].log == p@.log,
        views[0].taken < p@.queued.len(),
        p@.queued[views[0].taken as int].1.len() == views[0].format.frame_size(),
        views[5].looks > views[4].looks ==> views[5].seen >= p@.queued.len(),
    ensures
        ({
            let start = views[0];
            let (ts, block) = p@.queued[start.taken as int];
            let header = start.format.header(start.format.id(reply@) as u64, ts);
            let written = views[5].sent;
            &&& actions[4] is Send
            &&& written.take(hello().len() as int) == hello()
            &&& receive(written.skip(hello().len() as int)) == seq![(header, block)]
        }),
{
    law_served_connection(views, events, flags, actions, reply, p@.queued.len());
    law_queue_is_log(p);
    let start = views[0];
    let id = start.format.id(reply@) as u64;
    let item = p@.queued[start.taken as int];
    assert(item == start.log[start.taken]);
    let items = seq![item];
    let n = hello().len() as int;
    let written = views[5].sent;
    assert(items.drop_last() =~= Seq::empty());
    assert(start.format.frames(id, items.drop_last()) =~= Seq::<u8>::empty());
    assert(written.skip(n) =~= start.format.frames(id, items));
    assert(written.take(n) =~= hello());
    law_receive_frames(start.format, id, items);
    assert(receive(written.skip(n)) =~= seq![(start.format.header(id, item.0), item.1)]);
}

/// The two threads and the signal between them.
pub struct Exchange {
    pub processor: ProcessorView,
    pub transmitter: TransmitterView,
    pub signal: Signal,
    /// Whether a block was queued for which the signal is still to be raised.
    pub announcing: bool,
    /// How many blocks were queued when the signal was last raised.
    pub announced: nat,
    /// Whether the signal was taken down, and the transmitter is still to be told that its
    /// wait is over.
    pub woken: bool,
}

/// What one of the threads does.
pub enum Turn {
    /// The audio thread adds a block.
    Add { data: Seq<u8>, ts: u64, queued: bool },
    /// The audio thread raises the signal for the block that it queued.
    Announce,
    /// The audio thread sets the shutdown flag.
    Shutdown,
    /// The transmit thread ends its wait and takes the signal down.
    Wake { shutdown: bool },
    /// The transmit thread takes a step.
    Step { event: Event, shutdown: bool, action: Action },
}

/// What a turn does. The audio thread raises the signal after each block that it queued; the
/// transmit thread ends a wait when the signal says so, takes it down, and then tells the
/// transmitter.
pub open spec fn turns(pre: Exchange, turn: Turn, post: Exchange) -> bool {
    match turn {
        Turn::Add { data, ts, queued } => {
            &&& !pre.announcing
            &&& adds(pre.processor, data, ts, post.processor, queued)
            &&& post == (Exchange {
                processor: post.processor,
                announcing: queued,
                ..pre
            })
        },
        Turn::Announce => {
            &&& pre.announcing
            &&& post == (Exchange {
                signal: Signal { ready: true },
                announcing: false,
                announced: pre.processor.queued.len(),
                ..pre
            })
        },
        Turn::Shutdown => post == (Exchange {
            processor: ProcessorView { shutdown: true, ..pre.processor },
            ..pre
        }),
        Turn::Wake { shutdown } => {
            &&& pre.transmitter.phase is Waiting
            &&& !pre.woken
            &&& !pre.signal.waits(shutdown)
            &&& post == (Exchange { signal: Signal { ready: false }, woken: true, ..pre })
        },
        Turn::Step { event, shutdown, action } => {
            &&& pre.transmitter.expects(event)
            &&& event is Woken <==> pre.woken
            &&& steps(pre.transmitter, event, shutdown, post.transmitter, action)
            &&& post == (Exchange { transmitter: post.transmitter, woken: false, ..pre })
        },
    }
}

/// The two threads taking turns, in any order. A look at the ring of frames shows at least
/// the blocks that were announced before.
pub open spec fn exchange(states: Seq<Exchange>, moves: Seq<Turn>) -> bool {
    &&& states.len() == moves.len() + 1
    &&& forall|i: int|
        0 <= i < moves.len() ==> turns(states[i], #[trigger] moves[i], states[i + 1]) && (
        states[i].transmitter.looks < states[i + 1].transmitter.looks ==> states[i
            + 1].transmitter.seen >= states[i].announced)
}

/// The start: the transmitter was launched, and the first block is still to be announced.
pub open spec fn begins(x: Exchange) -> bool {
    &&& x.processor.queued.len() == 1
    &&& x.transmitter.phase is Offline
    &&& !x.signal.ready
    &&& x.announcing
    &&& x.announced == 0
    &&& !x.woken
}

/// Whether every block that was queued is announced, or is the last one and about to be, and
/// the transmitter has seen all that were announced, unless the signal is up, or the
/// transmitter is about to look or has ended.
spec fn nothing_missed(x: Exchange) -> bool {
    &&& x.processor.queued.len() == x.announced + if x.announcing {
        1int
    } else {
        0
    }
    &&& !x.signal.ready && !x.woken && x.transmitter.phase !is Stopped ==> x.transmitter.seen
        >= x.announced
}

proof fn lemma_nothing_missed(states: Seq<Exchange>, moves: Seq<Turn>, n: int)
    requires
        exchange(states, moves),
        begins(states[0]),
        0 <= n < states.len(),
    ensures
        nothing_missed(states[n]),
    decreases n,
{
    if n > 0 {
        lemma_nothing_missed(states, moves, n - 1);
        let pre = states[n - 1];
        let post = states[n];
        assert(turns(pre, moves[n - 1], post));
        match moves[n - 1] {
            Turn::Step { event, shutdown, action } => {
                assert(post.transmitter.seen >= pre.transmitter.seen);
                if event is Woken && !shutdown {
                    assert(post.transmitter.looks == pre.transmitter.looks + 1);
                }
            },
            _ => {},
        }
    }
}

/// No wake-up is lost: whenever the signal is down and the transmitter waits, it has seen every
/// block that was queued, except for one that is about to be announced. A block that it has
/// seen and could not send, because the connection was lost, waits for the next wake-up.
pub proof fn law_no_wake_up_is_lost(states: Seq<Exchange>, moves: Seq<Turn>)
    requires
        exchange(states, moves),
        begins(states[0]),
        !states.last().signal.ready,
        !states.last().woken,
        states.last().transmitter.phase is Waiting,
    ensures
        ({
            let end = states.last();
            end.transmitter.seen >= end.processor.queued.len() - if end.announcing {
                1int
            } else {
                0
            }
        }),
{
    lemma_nothing_missed(states, moves, states.len() - 1);
}

/// A signal that is up ends the wait, and then a block that was announced and not taken is
/// handed out: of the blocks that wait, the first.
pub proof fn law_announced_block_is_sent(
    x: Exchange,
    shutdown: bool,
    woken: Exchange,
    y: Exchange,
    action: Action,
)
    requires
        x.signal.ready,
        turns(x, Turn::Wake { shutdown }, woken),
        turns(woken, Turn::Step { event: Event::Woken, shutdown: false, action }, y),
        woken.transmitter.looks < y.transmitter.looks ==> y.transmitter.seen >= woken.announced,
        x.transmitter.taken < x.announced,
    ensures
        !x.signal.waits(shutdown),
        ({
            let t = x.transmitter;
            let (ts, payload) = t.log[t.taken];
            &&& action is Send
            &&& y.transmitter.taken == t.taken + 1
            &&& y.transmitter.outgoing == t.format.frame(t.id, ts, payload)
        }),
{
    law_wake_up_sends(x.transmitter, y.transmitter, action, x.announced);
}

} // verus!
