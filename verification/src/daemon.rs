//! Control-plane core: the stream table behind the daemon API.
//!
//! Stream ids are allocated once and never reused, so a closed id can
//! never reopen; byte counters saturate instead of wrapping.

use vstd::prelude::*;
use crate::NyxError;

verus! {

/// Lifecycle of one stream.
#[derive(Clone, Copy, PartialEq, Eq, Structural, Debug)]
pub enum StreamState {
    Open,
    HalfClosedLocal,
    HalfClosedRemote,
    Closed,
}

/// What the daemon reports about itself.
#[derive(Clone, Copy, PartialEq, Eq, Structural, Debug)]
pub struct NodeInfo {
    pub node_id: u64,
    pub uptime_sec: u64,
    pub active_streams: u64,
    pub bytes_in: u64,
    pub bytes_out: u64,
}

/// Streams in the table that are not closed.
pub open spec fn spec_count_active(s: Seq<(u64, StreamState)>) -> int
    decreases s.len(),
{
    if s.len() == 0 {
        0
    } else {
        spec_count_active(s.drop_last()) + if s.last().1 != StreamState::Closed {
            1int
        } else {
            0int
        }
    }
}

/// The daemon's stream table and traffic counters.
pub struct StreamRegistry {
    pub node_id: u64,
    streams: Vec<(u64, StreamState)>,
    next_stream_id: u64,
    bytes_in: u64,
    bytes_out: u64,
}

impl StreamRegistry {
    pub closed spec fn spec_streams(self) -> Seq<(u64, StreamState)> {
        self.streams@
    }

    pub closed spec fn spec_node_id(self) -> u64 {
        self.node_id
    }

    pub closed spec fn spec_next_stream_id(self) -> u64 {
        self.next_stream_id
    }

    pub closed spec fn spec_bytes_in(self) -> u64 {
        self.bytes_in
    }

    pub closed spec fn spec_bytes_out(self) -> u64 {
        self.bytes_out
    }

    /// Every id was allocated below the allocator and ids never repeat.
    pub closed spec fn wf(self) -> bool {
        &&& forall|i: int|
            0 <= i < self.streams@.len() ==> (#[trigger] self.streams@[i]).0
                < self.next_stream_id
        &&& forall|i: int, j: int|
            0 <= i < j < self.streams@.len() ==> self.streams@[i].0 != self.streams@[j].0
    }

    /// An empty registry whose first stream will get id 1.
    pub fn new(node_id: u64) -> (r: StreamRegistry)
        ensures
            r.wf(),
            r.spec_streams() == Seq::<(u64, StreamState)>::empty(),
            r.spec_next_stream_id() == 1,
            r.spec_bytes_in() == 0,
            r.spec_bytes_out() == 0,
    {
        StreamRegistry { node_id, streams: Vec::new(), next_stream_id: 1, bytes_in: 0, bytes_out: 0 }
    }

    /// Open a new stream. Every call allocates a fresh id — duplicate
    /// invocations get distinct streams. Fails only when the id space is
    /// spent.
    pub fn open_stream(&mut self) -> (r: Result<u64, NyxError>)
        requires
            old(self).wf(),
        ensures
            final(self).wf(),
            r is Ok <==> old(self).spec_next_stream_id() < u64::MAX,
            r matches Ok(id) ==> id == old(self).spec_next_stream_id() && final(self).spec_next_stream_id() == id + 1 && final(self).spec_streams() == old(self).spec_streams().push((id, StreamState::Open)),
            r is Err ==> *final(self) == *old(self) && r == Result::<u64, NyxError>::Err(
                NyxError::ConfigInvalid,
            ),
    {
        if self.next_stream_id >= u64::MAX {
            return Err(NyxError::ConfigInvalid);
        }
        let id = self.next_stream_id;
        self.next_stream_id = id + 1;
        let ghost prev = self.streams@;
        self.streams.push((id, StreamState::Open));
        proof {
            assert(forall|i: int| 0 <= i < prev.len() ==> self.streams@[i] == prev[i]);
        }
        Ok(id)
    }

    /// The state of stream `id`, if the table knows it.
    pub fn stream_state(&self, id: u64) -> (r: Option<StreamState>)
        ensures
            r is Some <==> exists|i: int|
                0 <= i < self.spec_streams().len() && (#[trigger] self.spec_streams()[i]).0 == id,
            r matches Some(st) ==> exists|i: int|
                0 <= i < self.spec_streams().len() && (#[trigger] self.spec_streams()[i]) == (
                    id,
                    st,
                ),
    {
        let n = self.streams.len();
        let mut i: usize = 0;
        while i < n
            invariant
                n == self.streams@.len(),
                i <= n,
                forall|j: int| 0 <= j < i ==> (#[trigger] self.streams@[j]).0 != id,
            decreases n - i,
        {
            if self.streams[i].0 == id {
                proof {
                    assert(self.spec_streams()[i as int] == (id, self.streams@[i as int].1));
                }
                return Some(self.streams[i].1);
            }
            i = i + 1;
        }
        None
    }

    /// Close stream `id`: idempotent on an already-closed stream, an error
    /// only for an id never opened. A closed id never reopens because ids
    /// are never reallocated.
    pub fn close_stream(&mut self, id: u64) -> (r: Result<(), NyxError>)
        requires
            old(self).wf(),
        ensures
            final(self).wf(),
            r is Ok <==> exists|i: int|
                0 <= i < old(self).spec_streams().len() && (#[trigger] old(self).spec_streams()[i]).0 == id,
            r is Err ==> *final(self) == *old(self) && r == Result::<(), NyxError>::Err(
                NyxError::RouteUnavailable,
            ),
            r is Ok ==> exists|i: int|
                0 <= i < old(self).spec_streams().len() && (#[trigger] old(self).spec_streams()[i]).0 == id && final(self).spec_streams() == old(self).spec_streams().update(i, (id, StreamState::Closed)),
            final(self).spec_next_stream_id() == old(self).spec_next_stream_id(),
    {
        let n = self.streams.len();
        let mut i: usize = 0;
        while i < n
            invariant
                *self == *old(self),
                old(self).wf(),
                n == self.streams@.len(),
                i <= n,
                forall|j: int| 0 <= j < i ==> (#[trigger] self.streams@[j]).0 != id,
            decreases n - i,
        {
            if self.streams[i].0 == id {
                proof {
                    assert((#[trigger] old(self).spec_streams()[i as int]).0 == id);
                }
                self.streams.set(i, (id, StreamState::Closed));
                proof {
                    assert(forall|a: int|
                        0 <= a < self.streams@.len() ==> (#[trigger] self.streams@[a]).0 == old(self).streams@[a].0);
                    assert(self.spec_streams() =~= old(self).spec_streams().update(
                        i as int,
                        (id, StreamState::Closed),
                    ));
                }
                return Ok(());
            }
            i = i + 1;
        }
        Err(NyxError::RouteUnavailable)
    }

    /// Account `n` sent bytes on an open stream. Success reports whether
    /// the egress pipeline asked for backpressure; a stream that is closed
    /// or unknown is an error and changes nothing.
    pub fn send_data(&mut self, id: u64, n: u64, egress_backpressure: bool) -> (r: Result<
        bool,
        NyxError,
    >)
        requires
            old(self).wf(),
        ensures
            final(self).wf(),
            r is Ok <==> exists|i: int|
                0 <= i < old(self).spec_streams().len() && ((#[trigger] old(self).spec_streams()[i]).0 == id && (old(self).spec_streams()[i].1 == StreamState::Open
                    || old(self).spec_streams()[i].1 == StreamState::HalfClosedRemote)),
            r matches Ok(bp) ==> bp == egress_backpressure && final(self).spec_bytes_out() == (
            if old(self).spec_bytes_out() + n > u64::MAX {
                u64::MAX
            } else {
                (old(self).spec_bytes_out() + n) as u64
            }) && final(self).spec_streams() == old(self).spec_streams(),
            r is Err ==> *final(self) == *old(self) && r == Result::<bool, NyxError>::Err(
                NyxError::RouteUnavailable,
            ),
    {
        match self.stream_state(id) {
            Some(StreamState::Open) | Some(StreamState::HalfClosedRemote) => {
                if n > u64::MAX - self.bytes_out {
                    self.bytes_out = u64::MAX;
                } else {
                    self.bytes_out = self.bytes_out + n;
                }
                Ok(egress_backpressure)
            },
            _ => {
                proof {
                    if exists|i: int|
                        0 <= i < self.streams@.len() && ((#[trigger] self.streams@[i]).0 == id && (
                        self.streams@[i].1 == StreamState::Open || self.streams@[i].1
                            == StreamState::HalfClosedRemote)) {
                        let i = choose|i: int|
                            0 <= i < self.streams@.len() && ((#[trigger] self.streams@[i]).0 == id
                                && (self.streams@[i].1 == StreamState::Open || self.streams@[i].1
                                == StreamState::HalfClosedRemote));
                        assert(self.streams@[i].0 == id);
                    }
                }
                Err(NyxError::RouteUnavailable)
            },
        }
    }

    /// Account `n` received bytes.
    pub fn note_bytes_in(&mut self, n: u64)
        requires
            old(self).wf(),
        ensures
            final(self).wf(),
            final(self).spec_bytes_in() == if old(self).spec_bytes_in() + n > u64::MAX {
                u64::MAX
            } else {
                (old(self).spec_bytes_in() + n) as u64
            },
            final(self).spec_streams() == old(self).spec_streams(),
            final(self).spec_bytes_out() == old(self).spec_bytes_out(),
            final(self).spec_next_stream_id() == old(self).spec_next_stream_id(),
    {
        if n > u64::MAX - self.bytes_in {
            self.bytes_in = u64::MAX;
        } else {
            self.bytes_in = self.bytes_in + n;
        }
    }

    /// The daemon's self-report at `uptime_sec`.
    pub fn get_info(&self, uptime_sec: u64) -> (r: NodeInfo)
        ensures
            r.node_id == self.spec_node_id(),
            r.uptime_sec == uptime_sec,
            r.active_streams == spec_count_active(self.spec_streams()),
            r.bytes_in == self.spec_bytes_in(),
            r.bytes_out == self.spec_bytes_out(),
    {
        let n = self.streams.len();
        let mut active: u64 = 0;
        let mut i: usize = 0;
        while i < n
            invariant
                n == self.streams@.len(),
                i <= n,
                active == spec_count_active(self.streams@.take(i as int)),
                active <= i,
            decreases n - i,
        {
            proof {
                assert(self.streams@.take(i as int + 1).drop_last() =~= self.streams@.take(
                    i as int,
                ));
                assert(self.streams@.take(i as int + 1).last() == self.streams@[i as int]);
            }
            if !matches!(self.streams[i].1, StreamState::Closed) {
                active = active + 1;
            }
            i = i + 1;
        }
        proof {
            assert(self.streams@.take(n as int) =~= self.streams@);
        }
        NodeInfo {
            node_id: self.node_id,
            uptime_sec,
            active_streams: active,
            bytes_in: self.bytes_in,
            bytes_out: self.bytes_out,
        }
    }
}

} // verus!
