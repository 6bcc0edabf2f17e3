//! Timing obfuscation scheduling.
//!
//! Each packet is released after a randomized delay `max(0, mean + noise)`
//! where the noise is normally distributed around zero; the queue releases
//! whatever pending packet has the earliest sampled deadline, never in
//! strict arrival order — reordering is the point. The caller samples the
//! noise and drives the clock; everything decided here is exact.

use vstd::prelude::*;

verus! {

/// Obfuscated packet with payload bytes.
#[derive(Debug)]
pub struct Packet(pub Vec<u8>);

impl View for Packet {
    type V = Seq<u8>;

    open spec fn view(&self) -> Seq<u8> {
        self.0@
    }
}

/// Timing obfuscator parameters, in whole milliseconds.
pub struct TimingConfig {
    /// Mean delay.
    pub mean_ms: u64,
    /// Standard deviation of the sampled noise.
    pub sigma_ms: u64,
}

impl Default for TimingConfig {
    /// The stock configuration: mean 20 ms, deviation 10 ms.
    fn default() -> (r: TimingConfig)
        ensures
            r.mean_ms == 20,
            r.sigma_ms == 10,
    {
        TimingConfig { mean_ms: 20, sigma_ms: 10 }
    }
}

/// The delay a packet waits: `max(0, mean + noise)`, saturated at the top
/// of the range.
pub open spec fn spec_release_delay(mean_ms: u64, noise_ms: i64) -> u64 {
    if mean_ms + noise_ms < 0 {
        0u64
    } else if mean_ms + noise_ms > u64::MAX {
        u64::MAX
    } else {
        (mean_ms + noise_ms) as u64
    }
}

/// Clamp one sampled noise value into a release delay.
pub fn release_delay_ms(mean_ms: u64, noise_ms: i64) -> (r: u64)
    ensures
        r == spec_release_delay(mean_ms, noise_ms),
        noise_ms <= 0 ==> r <= mean_ms,
{
    if noise_ms >= 0 {
        let extra = noise_ms as u64;
        if extra <= u64::MAX - mean_ms {
            mean_ms + extra
        } else {
            u64::MAX
        }
    } else {
        let magnitude: u64 = if noise_ms == i64::MIN {
            0x8000000000000000
        } else {
            (-noise_ms) as u64
        };
        if magnitude >= mean_ms {
            0
        } else {
            mean_ms - magnitude
        }
    }
}

/// A cover-traffic packet: one full wire cell of filler. When the queue
/// runs idle the obfuscator keeps emitting these at the sampled delay
/// distribution, so an observer cannot tell idle from active periods.
pub fn cover_packet() -> (r: Packet)
    ensures
        r@ == Seq::<u8>::new(crate::cell::CELL_SIZE as nat, |i: int| 0u8),
        r@.len() == crate::cell::CELL_SIZE,
{
    let mut bytes: Vec<u8> = Vec::new();
    let mut i: usize = 0;
    while i < crate::cell::CELL_SIZE
        invariant
            i <= crate::cell::CELL_SIZE,
            bytes@.len() == i,
            forall|j: int| 0 <= j < i ==> bytes@[j] == 0u8,
        decreases crate::cell::CELL_SIZE - i,
    {
        bytes.push(0);
        i = i + 1;
    }
    proof {
        assert(bytes@ =~= Seq::<u8>::new(crate::cell::CELL_SIZE as nat, |i: int| 0u8));
    }
    Packet(bytes)
}

/// Pending packets, each with its sampled release deadline.
pub struct DelayQueue {
    entries: Vec<(u64, Packet)>,
    capacity: usize,
}

impl DelayQueue {
    /// Deadlines and payloads of the pending packets, in arrival order.
    pub closed spec fn view_entries(self) -> Seq<(u64, Seq<u8>)> {
        Seq::new(self.entries@.len(), |i: int| (self.entries@[i].0, self.entries@[i].1@))
    }

    pub closed spec fn spec_capacity(self) -> int {
        self.capacity as int
    }

    /// An empty queue with room for `capacity` packets.
    pub fn new(capacity: usize) -> (r: DelayQueue)
        ensures
            r.view_entries() == Seq::<(u64, Seq<u8>)>::empty(),
            r.spec_capacity() == capacity,
    {
        let r = DelayQueue { entries: Vec::new(), capacity };
        proof {
            assert(r.view_entries() =~= Seq::<(u64, Seq<u8>)>::empty());
        }
        r
    }

    pub fn len(&self) -> (r: usize)
        ensures
            r == self.view_entries().len(),
    {
        self.entries.len()
    }

    /// Accept a packet with its sampled deadline; refuse it exactly when
    /// the queue is full — enqueueing never waits for a delay, only for
    /// room.
    pub fn enqueue(&mut self, deadline_ms: u64, packet: Packet) -> (r: Result<(), Packet>)
        ensures
            r is Ok <==> old(self).view_entries().len() < old(self).spec_capacity(),
            r is Ok ==> final(self).view_entries() == old(self).view_entries().push(
                (deadline_ms, packet@),
            ),
            r matches Err(p) ==> final(self).view_entries() == old(self).view_entries() && p@
                == packet@,
            final(self).spec_capacity() == old(self).spec_capacity(),
    {
        if self.entries.len() < self.capacity {
            self.entries.push((deadline_ms, packet));
            proof {
                assert(self.view_entries() =~= old(self).view_entries().push(
                    (deadline_ms, self.entries@.last().1@),
                ));
            }
            Ok(())
        } else {
            Err(packet)
        }
    }

    /// Release the pending packet with the earliest deadline, provided that
    /// deadline has been reached. Packets therefore leave in sampled-
    /// deadline order, not arrival order. Returns the deadline with the
    /// packet; `None` exactly when nothing is due at `now_ms`.
    pub fn pop_due(&mut self, now_ms: u64) -> (r: Option<(u64, Packet)>)
        ensures
            r is None <==> (forall|i: int|
                0 <= i < old(self).view_entries().len() ==> (#[trigger] old(
                    self,
                ).view_entries()[i]).0 > now_ms),
            r is None ==> *final(self) == *old(self),
            r matches Some(p) ==> p.0 <= now_ms && (forall|i: int|
                0 <= i < old(self).view_entries().len() ==> p.0 <= (#[trigger] old(
                    self,
                ).view_entries()[i]).0) && (exists|i: int|
                0 <= i < old(self).view_entries().len() && (#[trigger] old(
                    self,
                ).view_entries()[i]) == (p.0, p.1@) && final(self).view_entries() == old(
                    self,
                ).view_entries().remove(i)),
            final(self).spec_capacity() == old(self).spec_capacity(),
    {
        let n = self.entries.len();
        if n == 0 {
            return None;
        }
        let mut best: usize = 0;
        let mut i: usize = 1;
        while i < n
            invariant
                n == self.entries@.len(),
                *self == *old(self),
                best < i <= n,
                forall|j: int|
                    0 <= j < i ==> self.entries@[best as int].0 <= (#[trigger] self.entries@[j]).0,
            decreases n - i,
        {
            if self.entries[i].0 < self.entries[best].0 {
                best = i;
            }
            i = i + 1;
        }
        if self.entries[best].0 > now_ms {
            return None;
        }
        let (deadline, packet) = self.entries.remove(best);
        proof {
            assert(self.view_entries() =~= old(self).view_entries().remove(best as int));
            assert(old(self).view_entries()[best as int] == (deadline, packet@));
        }
        Some((deadline, packet))
    }
}

} // verus!
