//! Per-stream credit-based flow control.
//!
//! A stream may only put bytes in flight while it holds send credit granted by
//! the peer; the receive side hands out credit and asks for a WINDOW_UPDATE
//! once less than half of the initial window is left.

use vstd::prelude::*;

verus! {

/// Returned by [`FlowController::reserve`] when the send window has too
/// little credit left for the request.
#[derive(Clone, Copy, PartialEq, Eq, Structural, Debug)]
pub struct WouldBlock;

/// Credit windows of one stream.
pub struct FlowController {
    /// Window size both directions start from and recover to.
    initial_window: u64,
    /// Credit currently granted by the peer for sending.
    send_window: u64,
    /// Bytes reserved for sending and not yet acknowledged.
    inflight: u64,
    /// Credit we currently grant the peer for receiving.
    recv_window: u64,
}

impl FlowController {
    /// Bytes in flight never exceed the credit the peer granted.
    pub closed spec fn wf(self) -> bool {
        self.inflight <= self.send_window
    }

    pub closed spec fn spec_inflight(self) -> u64 {
        self.inflight
    }

    pub closed spec fn spec_send_window(self) -> u64 {
        self.send_window
    }

    pub closed spec fn spec_recv_window(self) -> u64 {
        self.recv_window
    }

    pub closed spec fn spec_initial_window(self) -> u64 {
        self.initial_window
    }

    /// Both directions start with the full initial window and nothing in flight.
    pub fn new(initial_window: u64) -> (r: FlowController)
        ensures
            r.wf(),
            r.spec_initial_window() == initial_window,
            r.spec_send_window() == initial_window,
            r.spec_recv_window() == initial_window,
            r.spec_inflight() == 0,
    {
        FlowController {
            initial_window,
            send_window: initial_window,
            inflight: 0,
            recv_window: initial_window,
        }
    }

    /// How much credit is left for new sends.
    pub fn available(&self) -> (r: u64)
        requires
            self.wf(),
        ensures
            r == self.spec_send_window() - self.spec_inflight(),
    {
        self.send_window - self.inflight
    }

    /// Ask for credit to put `n` more bytes in flight. Succeeds exactly when
    /// the window has `n` bytes of credit left; a refusal changes nothing.
    pub fn reserve(&mut self, n: u64) -> (r: Result<(), WouldBlock>)
        requires
            old(self).wf(),
        ensures
            final(self).wf(),
            r is Ok <==> old(self).spec_inflight() + n <= old(self).spec_send_window(),
            r is Ok ==> final(self).spec_inflight() == old(self).spec_inflight() + n,
            r is Err ==> final(self).spec_inflight() == old(self).spec_inflight(),
            final(self).spec_send_window() == old(self).spec_send_window(),
            final(self).spec_recv_window() == old(self).spec_recv_window(),
            final(self).spec_initial_window() == old(self).spec_initial_window(),
    {
        if n <= self.send_window - self.inflight {
            self.inflight = self.inflight + n;
            Ok(())
        } else {
            Err(WouldBlock)
        }
    }

    /// The peer acknowledged `n` bytes: they are no longer in flight.
    /// Acknowledgements beyond what is in flight are ignored.
    pub fn release(&mut self, n: u64)
        requires
            old(self).wf(),
        ensures
            final(self).wf(),
            n <= old(self).spec_inflight() ==> final(self).spec_inflight()
                == old(self).spec_inflight() - n,
            n > old(self).spec_inflight() ==> final(self).spec_inflight() == 0,
            final(self).spec_send_window() == old(self).spec_send_window(),
            final(self).spec_recv_window() == old(self).spec_recv_window(),
            final(self).spec_initial_window() == old(self).spec_initial_window(),
    {
        if n <= self.inflight {
            self.inflight = self.inflight - n;
        } else {
            self.inflight = 0;
        }
    }

    /// The peer granted `delta` more bytes of send credit; saturates at the
    /// largest representable window.
    pub fn update_peer_window(&mut self, delta: u64)
        requires
            old(self).wf(),
        ensures
            final(self).wf(),
            old(self).spec_send_window() + delta <= u64::MAX ==> final(self).spec_send_window()
                == old(self).spec_send_window() + delta,
            old(self).spec_send_window() + delta > u64::MAX ==> final(self).spec_send_window()
                == u64::MAX,
            final(self).spec_inflight() == old(self).spec_inflight(),
            final(self).spec_recv_window() == old(self).spec_recv_window(),
            final(self).spec_initial_window() == old(self).spec_initial_window(),
    {
        if delta <= u64::MAX - self.send_window {
            self.send_window = self.send_window + delta;
        } else {
            self.send_window = u64::MAX;
        }
    }

    /// Account `n` received bytes against the credit we granted the peer.
    /// An overrun is a flow-control violation and changes nothing. After a
    /// successful call, once less than half of the initial window is left the
    /// window snaps back to the initial size and the returned delta must be
    /// sent to the peer in a WINDOW_UPDATE frame.
    pub fn on_data_received(&mut self, n: u64) -> (r: Result<Option<u64>, crate::NyxError>)
        requires
            old(self).wf(),
        ensures
            final(self).wf(),
            r is Ok <==> n <= old(self).spec_recv_window(),
            r is Err ==> r == Result::<Option<u64>, crate::NyxError>::Err(
                crate::NyxError::FlowControlViolation,
            ) && *final(self) == *old(self),
            r is Ok ==> {
                let left = (old(self).spec_recv_window() - n) as u64;
                if left < old(self).spec_initial_window() / 2 {
                    r == Result::<Option<u64>, crate::NyxError>::Ok(
                        Some((old(self).spec_initial_window() - left) as u64),
                    ) && final(self).spec_recv_window() == old(self).spec_initial_window()
                } else {
                    r == Result::<Option<u64>, crate::NyxError>::Ok(None::<u64>)
                        && final(self).spec_recv_window() == left
                }
            },
            final(self).spec_inflight() == old(self).spec_inflight(),
            final(self).spec_send_window() == old(self).spec_send_window(),
            final(self).spec_initial_window() == old(self).spec_initial_window(),
    {
        if n > self.recv_window {
            return Err(crate::NyxError::FlowControlViolation);
        }
        let left = self.recv_window - n;
        if left < self.initial_window / 2 {
            let delta = self.initial_window - left;
            self.recv_window = self.initial_window;
            Ok(Some(delta))
        } else {
            self.recv_window = left;
            Ok(None)
        }
    }
}

} // verus!
