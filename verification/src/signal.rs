//! The signal with which the audio thread wakes the transmit thread.
//!
//! Both threads reach the signal under one lock. Raising it says that frames were queued;
//! the transmit thread waits for it and takes it down before it looks at the ring, so that
//! a frame that is queued after the look raises it anew. That no frame is missed this way is
//! [`crate::laws::law_no_wake_up_is_lost`].
use vstd::prelude::*;

verus! {

/// Whether frames were queued since the transmit thread last looked.
pub struct Signal {
    pub ready: bool,
}

impl Signal {
    /// Whether the transmit thread has to go on waiting.
    pub open spec fn waits(self, shutdown: bool) -> bool {
        !self.ready && !shutdown
    }

    /// A signal that is down.
    pub fn new() -> (s: Self)
        ensures
            !s.ready,
    {
        Signal { ready: false }
    }

    /// Raises the signal, after which nobody has to wait, and says whether a waiting thread
    /// has to be notified: one that is up has been notified of before.
    pub fn raise(&mut self) -> (notify: bool)
        ensures
            final(self).ready,
            notify == !old(self).ready,
            forall|shutdown: bool| !final(self).waits(shutdown),
    {
        let notify: bool = !self.ready;
        self.ready = true;
        notify
    }

    /// Whether the transmit thread has to go on waiting when the shutdown flag is `shutdown`.
    pub fn keep_waiting(&self, shutdown: bool) -> (b: bool)
        ensures
            b == self.waits(shutdown),
    {
        !self.ready && !shutdown
    }

    /// Takes the signal down.
    pub fn lower(&mut self)
        ensures
            !final(self).ready,
    {
        self.ready = false;
    }
}

} // verus!
