//! The decisions an ingress port takes while it sends a flow: which egress
//! port each packet goes to, and when the flow counts of egress ports change.
//! The port itself waits for its line between packets and carries out the
//! actions; this module decides them.

use vstd::prelude::*;
use crate::port::LoadBalancerMode;
use crate::flow::{Flow, is_flow_digest};
use crate::chance::draw_in_range;

verus! {

/// One thing an ingress port does to an egress port, named by its index.
#[derive(Clone, Copy, Debug, PartialEq, Eq)]
pub enum PortAction {
    IncFlows(usize),
    DecFlows(usize),
    AddToBuffer(usize),
}

/// Where an ingress port stands in sending one flow.
#[derive(Clone, Copy, Debug)]
pub struct FlowSchedule {
    pub mode: LoadBalancerMode,
    /// The number of egress ports.
    pub num_ports: usize,
    /// Packets of the flow still to send.
    pub packets_left: u64,
    /// The egress port the next packet goes to, unless it switches first.
    pub port: usize,
    /// Under flowlet switching, the port whose flow count was last raised.
    pub prev_port: Option<u16>,
}

impl FlowSchedule {
    /// The ports named are real ports.
    pub open spec fn wf(self) -> bool {
        &&& 0 < self.num_ports
        &&& self.port < self.num_ports
        &&& (self.prev_port matches Some(p) ==> (p as int) < self.num_ports)
    }

    /// The schedule may take another packet step: packets are left, and a
    /// flowlet size, if any, is not zero.
    pub open spec fn can_step(self) -> bool {
        &&& self.packets_left > 0
        &&& (self.mode matches LoadBalancerMode::Dfls(f) ==> f > 0)
    }

    /// Whether sending the next packet starts a new flowlet.
    pub open spec fn switches_now(self) -> bool {
        &&& self.mode matches LoadBalancerMode::Dfls(f)
        &&& (self.packets_left - 1) % (f as int) == 0
    }

    /// The port after the current one, in round order.
    pub open spec fn next_port(self) -> usize {
        ((self.port + 1) % (self.num_ports as int)) as usize
    }

    /// The schedule after one packet is sent.
    pub open spec fn after_packet(self) -> FlowSchedule {
        if self.switches_now() {
            FlowSchedule {
                packets_left: (self.packets_left - 1) as u64,
                port: self.next_port(),
                prev_port: Some(self.next_port() as u16),
                ..self
            }
        } else {
            FlowSchedule { packets_left: (self.packets_left - 1) as u64, ..self }
        }
    }

    /// What is done for one packet: on a new flowlet the next port gains the
    /// flow and the port that had it last loses it; then the packet is
    /// offered to the chosen port.
    pub open spec fn packet_actions(self) -> Seq<PortAction> {
        if self.switches_now() {
            let p = self.next_port();
            match self.prev_port {
                Some(q) => seq![PortAction::IncFlows(p), PortAction::DecFlows(q as usize), PortAction::AddToBuffer(p)],
                None => seq![PortAction::IncFlows(p), PortAction::AddToBuffer(p)],
            }
        } else {
            seq![PortAction::AddToBuffer(self.port)]
        }
    }

    /// The schedule at the start of a flow of `packets` packets. Under a
    /// static hash the flow keeps the port given by its hash; under flowlet
    /// switching it starts at `first_port`.
    pub open spec fn initial(
        mode: LoadBalancerMode,
        num_ports: usize,
        packets: u64,
        flow_hash: u64,
        first_port: usize,
    ) -> FlowSchedule {
        FlowSchedule {
            mode,
            num_ports,
            packets_left: packets,
            port: match mode {
                LoadBalancerMode::StaticHash => (flow_hash % (num_ports as u64)) as usize,
                LoadBalancerMode::Dfls(_) => first_port,
            },
            prev_port: None,
        }
    }

    /// What is done before the first packet: under a static hash the chosen
    /// port gains the flow.
    pub open spec fn opening_actions(self) -> Seq<PortAction> {
        match self.mode {
            LoadBalancerMode::StaticHash => seq![PortAction::IncFlows(self.port)],
            LoadBalancerMode::Dfls(_) => seq![],
        }
    }

    /// What is done after the last packet: under a static hash the port
    /// loses the flow.
    pub open spec fn closing_actions(self) -> Seq<PortAction> {
        match self.mode {
            LoadBalancerMode::StaticHash => seq![PortAction::DecFlows(self.port)],
            LoadBalancerMode::Dfls(_) => seq![],
        }
    }

    /// Starts a flow from a known hash and a known first port: the schedule
    /// and the actions due before the first packet.
    pub fn begin_with(
        mode: LoadBalancerMode,
        num_ports: usize,
        packets: u64,
        flow_hash: u64,
        first_port: usize,
    ) -> (r: (FlowSchedule, Vec<PortAction>))
        requires
            num_ports > 0,
            mode is Dfls ==> first_port < num_ports,
        ensures
            r.0 == FlowSchedule::initial(mode, num_ports, packets, flow_hash, first_port),
            r.0.wf(),
            r.1@ == r.0.opening_actions(),
            r.0.mode == mode,
            r.0.num_ports == num_ports,
            r.0.packets_left == packets,
            r.0.prev_port is None,
            mode is StaticHash ==> r.0.port == (flow_hash as int) % (num_ports as int),
            mode is StaticHash ==> r.1@ == seq![PortAction::IncFlows((flow_hash % (num_ports as u64)) as usize)],
            mode is Dfls ==> r.0.port == first_port,
            mode is Dfls ==> r.1@.len() == 0,
    {
        let port: usize = match mode {
            LoadBalancerMode::StaticHash => (flow_hash % (num_ports as u64)) as usize,
            LoadBalancerMode::Dfls(_) => first_port,
        };
        let s = FlowSchedule { mode, num_ports, packets_left: packets, port, prev_port: None };
        let mut actions: Vec<PortAction> = Vec::new();
        match mode {
            LoadBalancerMode::StaticHash => {
                actions.push(PortAction::IncFlows(port));
            },
            LoadBalancerMode::Dfls(_) => {},
        }
        proof {
            assert(actions@ =~= s.opening_actions());
        }
        (s, actions)
    }

    /// Starts a flow of `packets` packets over `num_ports` egress ports:
    /// under a static hash the flow's port comes from its hash, under flowlet
    /// switching the first port is drawn at random.
    pub fn begin(mode: LoadBalancerMode, num_ports: usize, packets: u64, flow: &Flow) -> (r: (
        FlowSchedule,
        Vec<PortAction>,
    ))
        requires
            num_ports > 0,
        ensures
            r.0.wf(),
            r.1@ == r.0.opening_actions(),
            mode is StaticHash ==> exists|h: u64|
                is_flow_digest(*flow, h) && r.0 == #[trigger] FlowSchedule::initial(mode, num_ports, packets, h, 0),
            mode is Dfls ==> exists|p: usize|
                p < num_ports && r.0 == #[trigger] FlowSchedule::initial(mode, num_ports, packets, 0, p),
    {
        match mode {
            LoadBalancerMode::StaticHash => {
                let h: u64 = flow.hash();
                FlowSchedule::begin_with(mode, num_ports, packets, h, 0)
            },
            LoadBalancerMode::Dfls(_) => {
                let first: usize = draw_in_range(0, num_ports as u64) as usize;
                FlowSchedule::begin_with(mode, num_ports, packets, 0, first)
            },
        }
    }

    /// Sends one packet: the actions for it, in order.
    pub fn step(&mut self) -> (actions: Vec<PortAction>)
        requires
            old(self).wf(),
            old(self).can_step(),
        ensures
            *final(self) == old(self).after_packet(),
            final(self).wf(),
            actions@ == old(self).packet_actions(),
    {
        let left: u64 = self.packets_left - 1;
        self.packets_left = left;
        let mut actions: Vec<PortAction> = Vec::new();
        match self.mode {
            LoadBalancerMode::Dfls(flowlet_size) => {
                if left % flowlet_size == 0 {
                    let next: usize = (self.port + 1) % self.num_ports;
                    self.port = next;
                    actions.push(PortAction::IncFlows(next));
                    match self.prev_port {
                        Some(p) => {
                            actions.push(PortAction::DecFlows(p as usize));
                        },
                        None => {},
                    }
                    self.prev_port = Some(next as u16);
                }
            },
            LoadBalancerMode::StaticHash => {},
        }
        actions.push(PortAction::AddToBuffer(self.port));
        proof {
            assert(actions@ =~= old(self).packet_actions());
            lemma_truncate_u16(self.port);
        }
        actions
    }

    /// Ends the flow: the actions due after its last packet.
    pub fn finish(&self) -> (actions: Vec<PortAction>)
        ensures
            actions@ == self.closing_actions(),
    {
        let mut actions: Vec<PortAction> = Vec::new();
        match self.mode {
            LoadBalancerMode::StaticHash => {
                actions.push(PortAction::DecFlows(self.port));
            },
            LoadBalancerMode::Dfls(_) => {},
        }
        proof {
            assert(actions@ =~= self.closing_actions());
        }
        actions
    }

    /// Whether packets are left to send.
    pub fn has_packets(&self) -> (b: bool)
        ensures
            b == (self.packets_left > 0),
    {
        self.packets_left > 0
    }
}

/// The schedule after `k` packets.
pub open spec fn run(s: FlowSchedule, k: nat) -> FlowSchedule
    decreases k,
{
    if k == 0 {
        s
    } else {
        run(s, (k - 1) as nat).after_packet()
    }
}

/// The actions taken for the first `k` packets, in order.
pub open spec fn run_actions(s: FlowSchedule, k: nat) -> Seq<PortAction>
    decreases k,
{
    if k == 0 {
        seq![]
    } else {
        run_actions(s, (k - 1) as nat) + run(s, (k - 1) as nat).packet_actions()
    }
}

/// Every action of a whole flow: those before the first packet, those for
/// each packet, and those after the last.
pub open spec fn flow_actions(s: FlowSchedule) -> Seq<PortAction> {
    s.opening_actions() + run_actions(s, s.packets_left as nat) + run(s, s.packets_left as nat).closing_actions()
}

/// The egress port an action names.
pub open spec fn target(a: PortAction) -> usize {
    match a {
        PortAction::IncFlows(p) => p,
        PortAction::DecFlows(p) => p,
        PortAction::AddToBuffer(p) => p,
    }
}

/// How many packets a list of actions offers to egress ports.
pub open spec fn offers(acts: Seq<PortAction>) -> nat
    decreases acts.len(),
{
    if acts.len() == 0 {
        0
    } else {
        offers(acts.drop_last()) + if acts.last() is AddToBuffer { 1nat } else { 0nat }
    }
}

/// How much a list of actions changes the flow count of port `j`.
pub open spec fn flow_change(acts: Seq<PortAction>, j: usize) -> int
    decreases acts.len(),
{
    if acts.len() == 0 {
        0
    } else {
        flow_change(acts.drop_last(), j) + match acts.last() {
            PortAction::IncFlows(p) => if p == j { 1int } else { 0int },
            PortAction::DecFlows(p) => if p == j { -1int } else { 0int },
            PortAction::AddToBuffer(_) => 0int,
        }
    }
}

/// How many flowlets start among the first `k` of `packets` packets, with
/// flowlets of `f` packets: the counts of packets still to send, after each
/// packet, that are multiples of `f`.
pub open spec fn flowlet_starts(packets: int, k: int, f: int) -> int {
    (packets - 1) / f - (packets - 1 - k) / f
}

proof fn lemma_truncate_u16(x: usize)
    ensures
        (x as u16) as int <= x,
{
    assert((x as u16) as usize <= x) by (bit_vector);
}

proof fn lemma_offers_append(a: Seq<PortAction>, b: Seq<PortAction>)
    ensures
        offers(a + b) == offers(a) + offers(b),
    decreases b.len(),
{
    if b.len() == 0 {
        assert(a + b =~= a);
    } else {
        lemma_offers_append(a, b.drop_last());
        assert((a + b).drop_last() =~= a + b.drop_last());
    }
}

proof fn lemma_flow_change_append(a: Seq<PortAction>, b: Seq<PortAction>, j: usize)
    ensures
        flow_change(a + b, j) == flow_change(a, j) + flow_change(b, j),
    decreases b.len(),
{
    if b.len() == 0 {
        assert(a + b =~= a);
    } else {
        lemma_flow_change_append(a, b.drop_last(), j);
        assert((a + b).drop_last() =~= a + b.drop_last());
    }
}

proof fn lemma_packet_step(s: FlowSchedule)
    requires
        s.wf(),
        s.can_step(),
    ensures
        s.after_packet().wf(),
        s.after_packet().mode == s.mode,
        s.after_packet().num_ports == s.num_ports,
        s.after_packet().packets_left == s.packets_left - 1,
        offers(s.packet_actions()) == 1,
        forall|i: int| 0 <= i < s.packet_actions().len() ==> target(#[trigger] s.packet_actions()[i]) < s.num_ports,
{
    lemma_truncate_u16(s.next_port());
    reveal_with_fuel(offers, 4);
    let acts = s.packet_actions();
    if s.switches_now() {
        match s.prev_port {
            Some(q) => {
                assert(acts.drop_last().drop_last().drop_last() =~= seq![]);
                assert(acts.drop_last().drop_last() =~= seq![PortAction::IncFlows(s.next_port())]);
                assert(acts.drop_last() =~= seq![PortAction::IncFlows(s.next_port()), PortAction::DecFlows(q as usize)]);
            },
            None => {
                assert(acts.drop_last().drop_last() =~= seq![]);
                assert(acts.drop_last() =~= seq![PortAction::IncFlows(s.next_port())]);
            },
        }
    } else {
        assert(acts.drop_last() =~= seq![]);
    }
}

/// Sending packets keeps a schedule well formed, in its mode and over its
/// ports, and each packet lowers the count of packets left by one.
pub proof fn lemma_run_wf(s: FlowSchedule, k: nat)
    requires
        s.wf(),
        s.mode matches LoadBalancerMode::Dfls(f) ==> f > 0,
        k <= s.packets_left,
    ensures
        run(s, k).wf(),
        run(s, k).mode == s.mode,
        run(s, k).num_ports == s.num_ports,
        run(s, k).packets_left == s.packets_left - k,
    decreases k,
{
    if k > 0 {
        lemma_run_wf(s, (k - 1) as nat);
        lemma_packet_step(run(s, (k - 1) as nat));
    }
}

/// Every packet of a flow is offered to exactly one egress port: `k` packet
/// steps offer `k` packets, and every action names one of the ports.
pub proof fn lemma_each_packet_offered_once(s: FlowSchedule, k: nat)
    requires
        s.wf(),
        s.mode matches LoadBalancerMode::Dfls(f) ==> f > 0,
        k <= s.packets_left,
    ensures
        offers(run_actions(s, k)) == k,
        forall|i: int| 0 <= i < run_actions(s, k).len() ==> target(#[trigger] run_actions(s, k)[i]) < s.num_ports,
    decreases k,
{
    if k > 0 {
        let k1 = (k - 1) as nat;
        lemma_each_packet_offered_once(s, k1);
        lemma_run_wf(s, k1);
        lemma_packet_step(run(s, k1));
        lemma_offers_append(run_actions(s, k1), run(s, k1).packet_actions());
        let a = run_actions(s, k1);
        let b = run(s, k1).packet_actions();
        assert forall|i: int| 0 <= i < (a + b).len() implies target(#[trigger] (a + b)[i]) < s.num_ports by {
            if i < a.len() {
                assert((a + b)[i] == a[i]);
            } else {
                assert((a + b)[i] == b[i - a.len()]);
            }
        }
    }
}

/// A whole flow offers exactly as many packets as it has, and names only
/// real egress ports.
pub proof fn lemma_flow_offers_all_packets(s: FlowSchedule)
    requires
        s.wf(),
        s.mode matches LoadBalancerMode::Dfls(f) ==> f > 0,
    ensures
        offers(flow_actions(s)) == s.packets_left,
        forall|i: int| 0 <= i < flow_actions(s).len() ==> target(#[trigger] flow_actions(s)[i]) < s.num_ports,
{
    let n = s.packets_left as nat;
    lemma_each_packet_offered_once(s, n);
    lemma_run_wf(s, n);
    let o = s.opening_actions();
    let m = run_actions(s, n);
    let c = run(s, n).closing_actions();
    lemma_offers_append(o, m);
    lemma_offers_append(o + m, c);
    reveal_with_fuel(offers, 2);
    match s.mode {
        LoadBalancerMode::StaticHash => {
            assert(o.drop_last() =~= seq![]);
            assert(c.drop_last() =~= seq![]);
        },
        LoadBalancerMode::Dfls(_) => {},
    }
    assert forall|i: int| 0 <= i < flow_actions(s).len() implies target(#[trigger] flow_actions(s)[i]) < s.num_ports by {
        if i < o.len() {
            assert(flow_actions(s)[i] == o[i]);
        } else if i < o.len() + m.len() {
            assert(flow_actions(s)[i] == m[i - o.len()]);
        } else {
            assert(flow_actions(s)[i] == c[i - o.len() - m.len()]);
        }
    }
}

/// Under a static hash every packet of a flow goes to the one port chosen at
/// the start.
pub proof fn lemma_static_hash_keeps_port(s: FlowSchedule, k: nat)
    requires
        s.wf(),
        s.mode is StaticHash,
        k <= s.packets_left,
    ensures
        run(s, k).port == s.port,
        run_actions(s, k) == Seq::new(k, |i: int| PortAction::AddToBuffer(s.port)),
    decreases k,
{
    if k > 0 {
        let k1 = (k - 1) as nat;
        lemma_static_hash_keeps_port(s, k1);
        lemma_run_wf(s, k1);
        assert(run_actions(s, k) =~= Seq::new(k, |i: int| PortAction::AddToBuffer(s.port)));
    }
}

/// Under a static hash a flow leaves the flow count of every egress port as
/// it found it: its port gains the flow before the first packet and loses it
/// after the last.
pub proof fn lemma_static_hash_flow_counts_balance(s: FlowSchedule, j: usize)
    requires
        s.wf(),
        s.mode is StaticHash,
    ensures
        flow_change(flow_actions(s), j) == 0,
{
    let n = s.packets_left as nat;
    lemma_static_hash_keeps_port(s, n);
    lemma_run_wf(s, n);
    let o = s.opening_actions();
    let m = run_actions(s, n);
    let c = run(s, n).closing_actions();
    lemma_flow_change_append(o, m, j);
    lemma_flow_change_append(o + m, c, j);
    reveal_with_fuel(flow_change, 2);
    assert(o.drop_last() =~= seq![]);
    assert(c.drop_last() =~= seq![]);
    assert(flow_change(m, j) == 0) by {
        lemma_offers_free_change(n, s.port, j);
    }
}

proof fn lemma_offers_free_change(k: nat, p: usize, j: usize)
    ensures
        flow_change(Seq::new(k, |i: int| PortAction::AddToBuffer(p)), j) == 0,
    decreases k,
{
    if k > 0 {
        lemma_offers_free_change((k - 1) as nat, p, j);
        assert(Seq::new(k, |i: int| PortAction::AddToBuffer(p)).drop_last()
            =~= Seq::new((k - 1) as nat, |i: int| PortAction::AddToBuffer(p)));
    }
}

/// Whether the schedule's last flowlet was counted as a flow on port `j`.
pub open spec fn holds_flow(s: FlowSchedule, j: usize) -> int {
    if s.prev_port matches Some(q) && q as usize == j { 1int } else { 0int }
}

/// Under flowlet switching, each new flowlet raises the flow count of its
/// port and lowers that of the previous flowlet's port, so over any run of
/// packets the counts change only by the flowlet held at the end against the
/// one held at the start.
pub proof fn lemma_flowlet_counts(s: FlowSchedule, k: nat, j: usize)
    requires
        s.wf(),
        s.mode matches LoadBalancerMode::Dfls(f) && f > 0,
        s.num_ports <= 65536,
        k <= s.packets_left,
    ensures
        flow_change(run_actions(s, k), j) == holds_flow(run(s, k), j) - holds_flow(s, j),
    decreases k,
{
    if k > 0 {
        let k1 = (k - 1) as nat;
        lemma_flowlet_counts(s, k1, j);
        lemma_run_wf(s, k1);
        let t = run(s, k1);
        lemma_flow_change_append(run_actions(s, k1), t.packet_actions(), j);
        reveal_with_fuel(flow_change, 4);
        let acts = t.packet_actions();
        if t.switches_now() {
            let p = t.next_port();
            assert(p < 65536);
            assert((p as u16) as usize == p) by (bit_vector)
                requires p < 65536;
            match t.prev_port {
                Some(q) => {
                    assert(acts.drop_last().drop_last().drop_last() =~= seq![]);
                    assert(acts.drop_last().drop_last() =~= seq![PortAction::IncFlows(p)]);
                    assert(acts.drop_last() =~= seq![PortAction::IncFlows(p), PortAction::DecFlows(q as usize)]);
                },
                None => {
                    assert(acts.drop_last().drop_last() =~= seq![]);
                    assert(acts.drop_last() =~= seq![PortAction::IncFlows(p)]);
                },
            }
        } else {
            assert(acts.drop_last() =~= seq![]);
        }
    }
}

/// Under flowlet switching a whole flow, started with no flowlet held,
/// leaves one flow counted on the port of its last flowlet and no change
/// elsewhere.
pub proof fn lemma_flowlet_flow_leaves_last_port_counted(s: FlowSchedule, j: usize)
    requires
        s.wf(),
        s.mode matches LoadBalancerMode::Dfls(f) && f > 0,
        s.num_ports <= 65536,
        s.prev_port is None,
    ensures
        flow_change(flow_actions(s), j) == holds_flow(run(s, s.packets_left as nat), j),
{
    let n = s.packets_left as nat;
    lemma_flowlet_counts(s, n, j);
    lemma_run_wf(s, n);
    assert(flow_actions(s) =~= run_actions(s, n));
}

/// How many flow-count gains a list of actions makes.
pub open spec fn gains(acts: Seq<PortAction>) -> nat
    decreases acts.len(),
{
    if acts.len() == 0 {
        0
    } else {
        gains(acts.drop_last()) + if acts.last() is IncFlows { 1nat } else { 0nat }
    }
}

/// How many flow-count losses a list of actions makes.
pub open spec fn losses(acts: Seq<PortAction>) -> nat
    decreases acts.len(),
{
    if acts.len() == 0 {
        0
    } else {
        losses(acts.drop_last()) + if acts.last() is DecFlows { 1nat } else { 0nat }
    }
}

proof fn lemma_gains_losses_append(a: Seq<PortAction>, b: Seq<PortAction>)
    ensures
        gains(a + b) == gains(a) + gains(b),
        losses(a + b) == losses(a) + losses(b),
    decreases b.len(),
{
    if b.len() == 0 {
        assert(a + b =~= a);
    } else {
        lemma_gains_losses_append(a, b.drop_last());
        assert((a + b).drop_last() =~= a + b.drop_last());
    }
}

/// Under flowlet switching, from a start with no flowlet held, each flowlet
/// started so far raised a flow count once, each but the first also lowered
/// one, and a flowlet is held exactly when one has started.
pub proof fn lemma_flowlet_gains_losses(s: FlowSchedule, k: nat)
    requires
        s.wf(),
        s.mode matches LoadBalancerMode::Dfls(f) && f > 0,
        s.prev_port is None,
        k <= s.packets_left,
    ensures
        flowlet_starts(s.packets_left as int, k as int, s.mode->0 as int) >= 0,
        gains(run_actions(s, k)) == flowlet_starts(s.packets_left as int, k as int, s.mode->0 as int),
        losses(run_actions(s, k)) == if flowlet_starts(s.packets_left as int, k as int, s.mode->0 as int) > 0 {
            flowlet_starts(s.packets_left as int, k as int, s.mode->0 as int) - 1
        } else {
            0
        },
        run(s, k).prev_port is Some <==> flowlet_starts(s.packets_left as int, k as int, s.mode->0 as int) > 0,
    decreases k,
{
    let f = s.mode->0 as int;
    if k > 0 {
        let k1 = (k - 1) as nat;
        lemma_flowlet_gains_losses(s, k1);
        lemma_run_wf(s, k1);
        let t = run(s, k1);
        let m = s.packets_left - 1 - k1;
        lemma_floor_step(m, f);
        lemma_gains_losses_append(run_actions(s, k1), t.packet_actions());
        reveal_with_fuel(gains, 4);
        reveal_with_fuel(losses, 4);
        let acts = t.packet_actions();
        if t.switches_now() {
            let p = t.next_port();
            match t.prev_port {
                Some(q) => {
                    assert(acts.drop_last().drop_last().drop_last() =~= seq![]);
                    assert(acts.drop_last().drop_last() =~= seq![PortAction::IncFlows(p)]);
                    assert(acts.drop_last() =~= seq![PortAction::IncFlows(p), PortAction::DecFlows(q as usize)]);
                },
                None => {
                    assert(acts.drop_last().drop_last() =~= seq![]);
                    assert(acts.drop_last() =~= seq![PortAction::IncFlows(p)]);
                },
            }
        } else {
            assert(acts.drop_last() =~= seq![]);
        }
    }
}

/// Under flowlet switching a whole flow of `P > 0` packets with flowlets of
/// `f` packets, started with no flowlet held, raises flow counts
/// `(P - 1) / f + 1` times and lowers them `(P - 1) / f` times.
pub proof fn lemma_flowlet_flow_gains_losses(s: FlowSchedule)
    requires
        s.wf(),
        s.mode matches LoadBalancerMode::Dfls(f) && f > 0,
        s.prev_port is None,
        s.packets_left > 0,
    ensures
        gains(flow_actions(s)) == (s.packets_left - 1) / (s.mode->0 as int) + 1,
        losses(flow_actions(s)) == (s.packets_left - 1) / (s.mode->0 as int),
{
    let n = s.packets_left as nat;
    let f = s.mode->0 as int;
    lemma_flowlet_gains_losses(s, n);
    lemma_floor_step(0, f);
    lemma_run_wf(s, n);
    assert(flow_actions(s) =~= run_actions(s, n));
    vstd::arithmetic::div_mod::lemma_fundamental_div_mod(s.packets_left - 1, f);
    assert((s.packets_left - 1) / f >= 0) by (nonlinear_arith)
        requires s.packets_left - 1 >= 0, f > 0;
}

/// How a flow starts. Under a static hash the flow's port is its hash
/// modulo the number of egress ports, that port gains the flow before the
/// first packet and loses it after the last; under flowlet switching the flow
/// starts at the given port with no flowlet held and nothing done.
pub proof fn lemma_flow_start(mode: LoadBalancerMode, n: usize, packets: u64, h: u64, first: usize)
    requires
        n > 0,
    ensures
        FlowSchedule::initial(mode, n, packets, h, first).mode == mode,
        FlowSchedule::initial(mode, n, packets, h, first).num_ports == n,
        FlowSchedule::initial(mode, n, packets, h, first).packets_left == packets,
        FlowSchedule::initial(mode, n, packets, h, first).prev_port is None,
        mode is StaticHash ==> FlowSchedule::initial(mode, n, packets, h, first).port == (h as int) % (n as int),
        mode is StaticHash ==> FlowSchedule::initial(mode, n, packets, h, first).opening_actions()
            == seq![PortAction::IncFlows(((h as int) % (n as int)) as usize)],
        mode is StaticHash ==> FlowSchedule::initial(mode, n, packets, h, first).closing_actions()
            == seq![PortAction::DecFlows(((h as int) % (n as int)) as usize)],
        mode is Dfls ==> FlowSchedule::initial(mode, n, packets, h, first).port == first,
        mode is Dfls ==> FlowSchedule::initial(mode, n, packets, h, first).opening_actions().len() == 0,
        mode is Dfls ==> FlowSchedule::initial(mode, n, packets, h, first).closing_actions().len() == 0,
{
}

/// What one packet step does, in terms of the schedule before it. A new
/// flowlet starts exactly under flowlet switching when the count of packets
/// left after this one is a multiple of the flowlet size; then the flow moves
/// to the next port round (current + 1 modulo the number of ports), that
/// port gains the flow and the port of the previous flowlet, if any, loses
/// it. Otherwise the flow stays on its current port and no flow count
/// changes. Either way the packet is offered to the port the flow is on
/// after the step, one packet fewer is left, and nothing else changes.
pub proof fn lemma_packet_step_effect(s: FlowSchedule)
    requires
        s.wf(),
        s.can_step(),
    ensures
        ({
            let starts = s.mode matches LoadBalancerMode::Dfls(f) && (s.packets_left - 1) % (f as int) == 0;
            let p: int = if starts { (s.port + 1) % (s.num_ports as int) } else { s.port as int };
            &&& s.after_packet().port == p
            &&& s.after_packet().packets_left == s.packets_left - 1
            &&& s.after_packet().mode == s.mode
            &&& s.after_packet().num_ports == s.num_ports
            &&& s.after_packet().prev_port == if starts { Some(p as u16) } else { s.prev_port }
            &&& s.packet_actions().last() == PortAction::AddToBuffer(p as usize)
            &&& s.packet_actions() == if !starts {
                seq![PortAction::AddToBuffer(p as usize)]
            } else if s.prev_port is Some {
                seq![
                    PortAction::IncFlows(p as usize),
                    PortAction::DecFlows(s.prev_port->0 as usize),
                    PortAction::AddToBuffer(p as usize),
                ]
            } else {
                seq![PortAction::IncFlows(p as usize), PortAction::AddToBuffer(p as usize)]
            }
        }),
{
}

/// Under flowlet switching the `k + 1`-th packet of a flow (counting from
/// one) goes to the port the flow started at, moved forward round the ports
/// once per flowlet started up to and including that packet.
pub proof fn lemma_flowlet_packet_port(s: FlowSchedule, k: nat)
    requires
        s.wf(),
        s.mode matches LoadBalancerMode::Dfls(f) && f > 0,
        k < s.packets_left,
    ensures
        run(s, k).packet_actions().last() == PortAction::AddToBuffer(
            ((s.port + flowlet_starts(s.packets_left as int, (k + 1) as int, s.mode->0 as int)) % (s.num_ports as int)) as usize,
        ),
{
    lemma_run_wf(s, k);
    lemma_packet_step_effect(run(s, k));
    lemma_flowlet_rotation(s, k + 1);
}

/// Under a static hash every packet of a flow, the `k + 1`-th included,
/// goes to the port of the flow's hash modulo the number of ports.
pub proof fn lemma_static_hash_packet_port(n: usize, packets: u64, h: u64, first: usize, k: nat)
    requires
        n > 0,
        k < packets,
    ensures
        run(FlowSchedule::initial(LoadBalancerMode::StaticHash, n, packets, h, first), k).packet_actions().last()
            == PortAction::AddToBuffer(((h as int) % (n as int)) as usize),
{
    let s = FlowSchedule::initial(LoadBalancerMode::StaticHash, n, packets, h, first);
    lemma_flow_start(LoadBalancerMode::StaticHash, n, packets, h, first);
    assert(s.wf());
    lemma_static_hash_keeps_port(s, k);
    lemma_run_wf(s, k);
    lemma_packet_step_effect(run(s, k));
}

proof fn lemma_floor_step(m: int, f: int)
    requires
        f > 0,
        m >= 0,
    ensures
        m / f - (m - 1) / f == if m % f == 0 { 1int } else { 0int },
{
    vstd::arithmetic::div_mod::lemma_fundamental_div_mod(m, f);
    vstd::arithmetic::div_mod::lemma_fundamental_div_mod(m - 1, f);
    vstd::arithmetic::div_mod::lemma_mod_bound(m, f);
    vstd::arithmetic::div_mod::lemma_mod_bound(m - 1, f);
    let q = m / f;
    let r = m % f;
    let q1 = (m - 1) / f;
    let r1 = (m - 1) % f;
    assert(f * (q - q1) == 1 + r1 - r) by (nonlinear_arith)
        requires m == f * q + r, m - 1 == f * q1 + r1;
    assert(q - q1 == 0 || q - q1 == 1) by (nonlinear_arith)
        requires f * (q - q1) == 1 + r1 - r, 0 <= r < f, 0 <= r1 < f, f > 0;
    if q - q1 == 1 {
        assert(r == 0);
    } else {
        assert(r == 1 + r1);
    }
}

/// Under flowlet switching, after `k` packets the flow sits on the port it
/// started at, moved forward round the ports once per flowlet started.
pub proof fn lemma_flowlet_rotation(s: FlowSchedule, k: nat)
    requires
        s.wf(),
        s.mode matches LoadBalancerMode::Dfls(f) && f > 0,
        k <= s.packets_left,
    ensures
        run(s, k).port == (s.port + flowlet_starts(s.packets_left as int, k as int, s.mode->0 as int))
            % (s.num_ports as int),
    decreases k,
{
    let f = s.mode->0 as int;
    let n = s.num_ports as int;
    if k == 0 {
        vstd::arithmetic::div_mod::lemma_small_mod(s.port as nat, s.num_ports as nat);
    } else {
        let k1 = (k - 1) as nat;
        lemma_flowlet_rotation(s, k1);
        lemma_run_wf(s, k1);
        let t = run(s, k1);
        let m = s.packets_left - 1 - k1;
        lemma_floor_step(m, f);
        let c = flowlet_starts(s.packets_left as int, k1 as int, f);
        assert(flowlet_starts(s.packets_left as int, k as int, f) == c + (if m % f == 0 { 1int } else { 0int }));
        if m % f == 0 {
            vstd::arithmetic::div_mod::lemma_add_mod_noop_right(1, s.port + c, n);
            vstd::arithmetic::div_mod::lemma_mod_bound(s.port + c, n);
            assert(t.switches_now());
        } else {
            assert(!t.switches_now());
        }
    }
}

} // verus!
