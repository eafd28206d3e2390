//! Egress ports: a bounded packet buffer drained at line rate, and the
//! counters that the simulator reports.

use vstd::prelude::*;

verus! {

/// How an ingress port picks the egress port for the packets of a flow.
#[derive(Clone, Copy, Debug, PartialEq, Eq)]
pub enum LoadBalancerMode {
    /// One egress port per flow, chosen by the flow's hash.
    StaticHash,
    /// Dynamic flowlet switching: the flow moves to the next egress port each
    /// time the number of packets still to send is a multiple of the given
    /// flowlet size.
    Dfls(u64),
}

/// A snapshot of the counters of a port.
#[derive(Default, Clone, Debug)]
pub struct PortState {
    pub port_name: String,
    pub total_flows: u32,
    pub active_flows: u32,
    pub rx_bytes: u64,
    pub tx_bytes: u64,
    pub rx_packets: u64,
    pub tx_packets: u64,
    pub dropped_packets: u64,
}

/// What an egress port holds, as plain values.
pub struct PortCounters {
    pub port_name: Seq<char>,
    /// Packets waiting in the buffer.
    pub buffer: u64,
    /// Packets sent out of the buffer.
    pub rx_packets: u64,
    /// Packets refused because the buffer was full.
    pub dropped_packets: u64,
    /// Flows that currently use the port.
    pub active_flows: u64,
    /// Flows that ever started to use the port.
    pub total_flows: u64,
    /// How many packets the buffer holds at most.
    pub buffer_size: u32,
    pub mtu: u16,
}

impl PortCounters {
    /// Every packet offered to the port: waiting, sent, or dropped.
    pub open spec fn offered(self) -> int {
        self.buffer + self.rx_packets + self.dropped_packets
    }

    /// The counters after a packet is offered: it waits in the buffer, or is
    /// dropped when the buffer is full.
    pub open spec fn after_offer(self) -> PortCounters {
        if self.buffer == self.buffer_size {
            PortCounters { dropped_packets: count_up(self.dropped_packets), ..self }
        } else {
            PortCounters { buffer: (self.buffer + 1) as u64, ..self }
        }
    }

    /// The counters after one tick of the line: the packet at the head of
    /// the buffer, if any, is sent.
    pub open spec fn after_send(self) -> PortCounters {
        if self.buffer > 0 {
            PortCounters { buffer: (self.buffer - 1) as u64, rx_packets: count_up(self.rx_packets), ..self }
        } else {
            self
        }
    }
}

/// Each packet offered to an egress port is accounted for once: offering
/// it raises the count of waiting, sent and dropped packets by one, sending
/// leaves that count as it is, and the buffer stays within its size (while
/// the counters are below their maximum).
pub proof fn lemma_offered_packets_accounted(c: PortCounters)
    requires
        c.buffer <= c.buffer_size,
        c.dropped_packets < u64::MAX,
        c.rx_packets < u64::MAX,
    ensures
        c.after_offer().offered() == c.offered() + 1,
        c.after_offer().buffer <= c.after_offer().buffer_size,
        c.after_send().offered() == c.offered(),
        c.after_send().buffer <= c.after_send().buffer_size,
{
}

/// The state of an egress port, as seen by those that feed it.
pub struct EgressPortClient {
    port_name: String,
    buffer: u64,
    rx_packets: u64,
    dropped_packets: u64,
    active_flows: u64,
    total_flows: u64,
    buffer_size: u32,
    mtu: u16,
}

impl View for EgressPortClient {
    type V = PortCounters;

    closed spec fn view(&self) -> PortCounters {
        PortCounters {
            port_name: self.port_name@,
            buffer: self.buffer,
            rx_packets: self.rx_packets,
            dropped_packets: self.dropped_packets,
            active_flows: self.active_flows,
            total_flows: self.total_flows,
            buffer_size: self.buffer_size,
            mtu: self.mtu,
        }
    }
}

impl EgressPortClient {
    /// The buffer never holds more packets than its size.
    #[verifier::type_invariant]
    spec fn buffer_within_size(self) -> bool {
        self.buffer <= self.buffer_size
    }

    /// A port with empty buffer and all counters at zero.
    pub fn empty(port_name: String, buffer_size: u32, mtu: u16) -> (c: EgressPortClient)
        ensures
            c@ == (PortCounters {
                port_name: port_name@,
                buffer: 0,
                rx_packets: 0,
                dropped_packets: 0,
                active_flows: 0,
                total_flows: 0,
                buffer_size,
                mtu,
            }),
    {
        EgressPortClient {
            port_name,
            buffer: 0,
            rx_packets: 0,
            dropped_packets: 0,
            active_flows: 0,
            total_flows: 0,
            buffer_size,
            mtu,
        }
    }

    /// The packet size of the port.
    pub fn mtu(&self) -> (m: u16)
        ensures
            m == self@.mtu,
    {
        self.mtu
    }

    /// A flow starts to use the port. The counters wrap around at their
    /// maximum, as atomic additions do.
    pub fn inc_flows(&mut self)
        ensures
            final(self)@ == (PortCounters {
                active_flows: count_up(old(self)@.active_flows),
                total_flows: count_up(old(self)@.total_flows),
                ..old(self)@
            }),
    {
        proof {
            use_type_invariant(&*self);
        }
        self.active_flows = self.active_flows.wrapping_add(1);
        self.total_flows = self.total_flows.wrapping_add(1);
    }

    /// A flow stops using the port. The counter wraps around below zero, as
    /// an atomic subtraction does.
    pub fn dec_flows(&mut self)
        ensures
            final(self)@ == (PortCounters { active_flows: count_down(old(self)@.active_flows), ..old(self)@ }),
    {
        proof {
            use_type_invariant(&*self);
        }
        self.active_flows = self.active_flows.wrapping_sub(1);
    }

    /// Offers one packet to the port: it enters the buffer, or is dropped
    /// when the buffer is full.
    pub fn add_to_buffer(&mut self)
        ensures
            final(self)@ == old(self)@.after_offer(),
            final(self)@.buffer <= final(self)@.buffer_size,
    {
        proof {
            use_type_invariant(&*self);
        }
        if self.buffer == self.buffer_size as u64 {
            self.dropped_packets = self.dropped_packets.wrapping_add(1);
        } else {
            self.buffer = self.buffer + 1;
        }
    }

    /// The number of packets waiting in the buffer.
    pub fn buffer_size(&self) -> (n: u64)
        ensures
            n == self@.buffer,
            n <= self@.buffer_size,
    {
        proof {
            use_type_invariant(self);
        }
        self.buffer
    }

    /// One tick of the line: the packet at the head of the buffer, if any,
    /// leaves the port. Returns whether a packet left.
    pub fn transmit_one(&mut self) -> (sent: bool)
        ensures
            sent == (old(self)@.buffer > 0),
            final(self)@ == old(self)@.after_send(),
    {
        proof {
            use_type_invariant(&*self);
        }
        if self.buffer > 0 {
            self.buffer = self.buffer - 1;
            self.rx_packets = self.rx_packets.wrapping_add(1);
            true
        } else {
            false
        }
    }

    /// A snapshot of the counters. Flow counts are cut to 32 bits; nothing is
    /// ever transmitted upstream, so the transmit counters are zero. `None`
    /// where the received bytes (packets times packet size) pass `u64::MAX`.
    pub fn stats(&self) -> (r: Option<PortState>)
        ensures
            r is Some <==> self@.rx_packets * self@.mtu <= u64::MAX,
            r matches Some(s) ==> {
                &&& s.port_name@ == self@.port_name
                &&& s.total_flows == self@.total_flows as u32
                &&& s.active_flows == self@.active_flows as u32
                &&& s.rx_bytes == self@.rx_packets * self@.mtu
                &&& s.tx_bytes == 0
                &&& s.tx_packets == 0
                &&& s.rx_packets == self@.rx_packets
                &&& s.dropped_packets == self@.dropped_packets
            },
    {
        match self.rx_packets.checked_mul(self.mtu as u64) {
            Some(rx_bytes) => Some(
                PortState {
                    port_name: self.port_name.clone(),
                    total_flows: self.total_flows as u32,
                    active_flows: self.active_flows as u32,
                    rx_bytes,
                    tx_bytes: 0,
                    tx_packets: 0,
                    rx_packets: self.rx_packets,
                    dropped_packets: self.dropped_packets,
                },
            ),
            None => None,
        }
    }
}

/// An egress port: the one set of counters that its feeders fill and its
/// line drains, and the rate at which it sends. Feeders and the line reach
/// the counters through [`EgressPort::client_mut`]; nothing copies them.
pub struct EgressPort {
    client: EgressPortClient,
    bps: u64,
}

impl EgressPort {
    /// A port with an empty buffer of `buffer_size` packets and all counters
    /// at zero.
    pub fn new(port_name: String, bps: u64, mtu: u16, buffer_size: u32) -> (p: EgressPort)
        ensures
            p.client_view() == (PortCounters {
                port_name: port_name@,
                buffer: 0,
                rx_packets: 0,
                dropped_packets: 0,
                active_flows: 0,
                total_flows: 0,
                buffer_size,
                mtu,
            }),
            p.bps_of() == bps,
    {
        EgressPort { client: EgressPortClient::empty(port_name, buffer_size, mtu), bps }
    }

    /// The counters of the port.
    pub closed spec fn client_view(&self) -> PortCounters {
        self.client@
    }

    pub closed spec fn bps_of(&self) -> u64 {
        self.bps
    }

    /// The port's counters, to read.
    pub fn client(&self) -> (c: &EgressPortClient)
        ensures
            c@ == self.client_view(),
    {
        &self.client
    }

    /// The port's counters, to offer packets, change flow counts or send:
    /// whatever is done through the returned reference is done to the port.
    pub fn client_mut(&mut self) -> (c: &mut EgressPortClient)
        ensures
            c@ == old(self).client_view(),
            final(self).client_view() == final(c)@,
            final(self).bps_of() == old(self).bps_of(),
    {
        &mut self.client
    }

    /// The line rate of the port, in bytes per second.
    pub fn bps(&self) -> (b: u64)
        ensures
            b == self.bps_of(),
    {
        self.bps
    }

    /// The packet size of the port.
    pub fn mtu(&self) -> (m: u16)
        ensures
            m == self.client_view().mtu,
    {
        self.client.mtu()
    }
}

/// What one step of a counter does: counting up adds one below the maximum
/// and wraps to zero at it; counting down takes one away above zero and
/// wraps to the maximum at zero. So counting down undoes counting up, and
/// the other way round.
pub proof fn lemma_count_steps(x: u64)
    ensures
        x < u64::MAX ==> count_up(x) == x + 1,
        x == u64::MAX ==> count_up(x) == 0,
        x > 0 ==> count_down(x) == x - 1,
        x == 0 ==> count_down(x) == u64::MAX,
        count_down(count_up(x)) == x,
        count_up(count_down(x)) == x,
{
}

/// What offering a packet and a tick of the line do to the counters. An
/// offer to a buffer with room adds the packet to the buffer; an offer to a
/// full buffer drops it. A tick with packets waiting takes one out of the
/// buffer and counts it as received; a tick with none waiting changes
/// nothing. Nothing else changes in either case.
pub proof fn lemma_offer_and_send_effects(c: PortCounters)
    requires
        c.buffer <= c.buffer_size,
        c.dropped_packets < u64::MAX,
        c.rx_packets < u64::MAX,
    ensures
        c.buffer < c.buffer_size ==> c.after_offer() == (PortCounters { buffer: (c.buffer + 1) as u64, ..c }),
        c.buffer == c.buffer_size ==> c.after_offer() == (PortCounters {
            dropped_packets: (c.dropped_packets + 1) as u64,
            ..c
        }),
        c.buffer > 0 ==> c.after_send() == (PortCounters {
            buffer: (c.buffer - 1) as u64,
            rx_packets: (c.rx_packets + 1) as u64,
            ..c
        }),
        c.buffer == 0 ==> c.after_send() == c,
{
}

/// Flow counts: a flow that starts raises both the active and the total
/// count by one, and one that ends lowers the active count by one, so a flow
/// that starts and ends leaves the active count as it was and the total one
/// higher (while the counters stay below their maximum).
pub proof fn lemma_flow_count_effects(c: PortCounters)
    requires
        c.active_flows < u64::MAX,
        c.total_flows < u64::MAX,
    ensures
        (PortCounters { active_flows: count_up(c.active_flows), total_flows: count_up(c.total_flows), ..c })
            == (PortCounters { active_flows: (c.active_flows + 1) as u64, total_flows: (c.total_flows + 1) as u64, ..c }),
        c.active_flows > 0 ==> count_down(c.active_flows) == c.active_flows - 1,
        count_down(count_up(c.active_flows)) == c.active_flows,
{
}

/// What happens at an egress port: a feeder offers a packet, or the line
/// ticks and sends the packet at the head of the buffer, if any.
#[derive(Clone, Copy, Debug, PartialEq, Eq)]
pub enum PortEvent {
    Offer,
    Send,
}

/// The counters after the events `evs`, in order, starting from `c`.
pub open spec fn after_events(c: PortCounters, evs: Seq<PortEvent>) -> PortCounters
    decreases evs.len(),
{
    if evs.len() == 0 {
        c
    } else {
        let d = after_events(c, evs.drop_last());
        match evs.last() {
            PortEvent::Offer => d.after_offer(),
            PortEvent::Send => d.after_send(),
        }
    }
}

/// How many packets the events offer.
pub open spec fn offer_count(evs: Seq<PortEvent>) -> nat
    decreases evs.len(),
{
    if evs.len() == 0 {
        0
    } else {
        offer_count(evs.drop_last()) + if evs.last() is Offer { 1nat } else { 0nat }
    }
}

/// An egress port sends out exactly what its feeders offered, less what it
/// dropped and what still waits: over any run of offers and ticks, waiting,
/// sent and dropped packets together grow by the number of offers, and the
/// buffer stays within its size (while the counters stay below their
/// maximum).
pub proof fn lemma_port_accounts_for_offers(c: PortCounters, evs: Seq<PortEvent>)
    requires
        c.buffer <= c.buffer_size,
        c.dropped_packets + evs.len() <= u64::MAX,
        c.rx_packets + evs.len() <= u64::MAX,
    ensures
        after_events(c, evs).offered() == c.offered() + offer_count(evs),
        after_events(c, evs).buffer <= after_events(c, evs).buffer_size,
        after_events(c, evs).buffer_size == c.buffer_size,
        after_events(c, evs).dropped_packets <= c.dropped_packets + evs.len(),
        after_events(c, evs).rx_packets <= c.rx_packets + evs.len(),
    decreases evs.len(),
{
    if evs.len() > 0 {
        lemma_port_accounts_for_offers(c, evs.drop_last());
        lemma_offered_packets_accounted(after_events(c, evs.drop_last()));
    }
}

/// The counters after `k` offers and no tick, starting from `c`.
pub open spec fn after_offers(c: PortCounters, k: nat) -> PortCounters
    decreases k,
{
    if k == 0 {
        c
    } else {
        after_offers(c, (k - 1) as nat).after_offer()
    }
}

/// With the line stopped, offers fill an empty buffer up to its size and
/// every offer past that is dropped: after `k` offers the buffer holds
/// `min(k, size)` packets and `max(0, k - size)` more were dropped.
pub proof fn lemma_full_buffer_drops(c: PortCounters, k: nat)
    requires
        c.buffer == 0,
        c.dropped_packets + k <= u64::MAX,
    ensures
        after_offers(c, k).buffer == if k <= c.buffer_size { k as int } else { c.buffer_size as int },
        after_offers(c, k).dropped_packets == c.dropped_packets + if k <= c.buffer_size { 0int } else {
            k - c.buffer_size
        },
        after_offers(c, k).rx_packets == c.rx_packets,
        after_offers(c, k).buffer_size == c.buffer_size,
    decreases k,
{
    if k > 0 {
        lemma_full_buffer_drops(c, (k - 1) as nat);
    }
}

/// A counter after one increment that wraps around at its maximum.
pub open spec fn count_up(x: u64) -> u64 {
    if x == u64::MAX { 0 } else { (x + 1) as u64 }
}

/// A counter after one decrement that wraps around below zero.
pub open spec fn count_down(x: u64) -> u64 {
    if x == 0 { u64::MAX } else { (x - 1) as u64 }
}

} // verus!
