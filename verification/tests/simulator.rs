use std::collections::hash_map::DefaultHasher;
use std::hash::{Hash, Hasher};

use lbsim::config::{Config, ConfigError, FlowConfig, InputPortConfig};
use lbsim::flow::{build_flow, Flow, DST_PORT};
use lbsim::network::{ingress_network_base, ingress_source_ip};
use lbsim::port::{EgressPort, LoadBalancerMode, PortState};
use lbsim::runner::total_received;
use lbsim::schedule::{FlowSchedule, PortAction};
use lbsim::sizes::packet_count;

fn flow_config(volume: &str, src_port: Option<u16>) -> FlowConfig {
    FlowConfig { volume: volume.to_string(), destination: "10.1.0.1".to_string(), src_port }
}

fn config(speed: &str, ports: Vec<Vec<FlowConfig>>) -> Config {
    Config {
        ingress_ports: ports
            .into_iter()
            .map(|flows| InputPortConfig { flows, src_ip: None })
            .collect(),
        buffer_size: 100,
        egress_ports: 4,
        speed: speed.to_string(),
        mode: LoadBalancerMode::StaticHash,
        mtu: 1500,
    }
}

fn run_flow(mut s: FlowSchedule, opening: Vec<PortAction>) -> Vec<PortAction> {
    let mut all = opening;
    while s.has_packets() {
        all.extend(s.step());
    }
    all.extend(s.finish());
    all
}

#[test]
fn packet_count_rounds_up() {
    assert_eq!(packet_count(0, 1500), 0);
    assert_eq!(packet_count(1, 1500), 1);
    assert_eq!(packet_count(1500, 1500), 1);
    assert_eq!(packet_count(1501, 1500), 2);
    assert_eq!(packet_count(3000, 1500), 2);
    assert_eq!(packet_count(u64::MAX, 1), u64::MAX);
    assert_eq!(packet_count(u64::MAX, 2), u64::MAX / 2 + 1);
}

#[test]
fn flow_new_keeps_fields() {
    let f = Flow::new(1, 2, 3, 4, 5, 6);
    assert_eq!((f.src_ip, f.src_port, f.dst_port, f.dst_ip, f.volume, f.bps), (1, 2, 3, 4, 5, 6));
}

#[test]
fn flow_hash_is_default_hasher_over_four_tuple() {
    let f = Flow::new(0x0a000001, 41000, 80, 0x0a010001, 9000, 125_000_000);
    let mut h = DefaultHasher::new();
    f.src_ip.hash(&mut h);
    f.dst_ip.hash(&mut h);
    f.src_port.hash(&mut h);
    f.dst_port.hash(&mut h);
    assert_eq!(f.hash(), h.finish());
    let g = Flow::new(0x0a000001, 41001, 80, 0x0a010001, 9000, 125_000_000);
    assert_ne!(f.hash(), g.hash());
    let same = Flow::new(0x0a000001, 41000, 80, 0x0a010001, 1, 1);
    assert_eq!(f.hash(), same.hash());
}

#[test]
fn build_flow_reads_volume_and_keeps_port() {
    let f = build_flow(7, &flow_config("3000", Some(41234)), 9, 1000).unwrap();
    assert_eq!((f.src_ip, f.src_port, f.dst_port, f.dst_ip, f.volume, f.bps), (7, 41234, DST_PORT, 9, 3000, 1000));
    let k = build_flow(7, &flow_config("1KiB", Some(1)), 9, 1000).unwrap();
    assert_eq!(k.volume, 1024);
    let m = build_flow(7, &flow_config("2MB", Some(1)), 9, 1000).unwrap();
    assert_eq!(m.volume, 2_000_000);
}

#[test]
fn build_flow_draws_port_in_range() {
    for _ in 0..200 {
        let f = build_flow(7, &flow_config("10", None), 9, 1000).unwrap();
        assert!(f.src_port >= 40000 && f.src_port < 65535);
    }
}

#[test]
fn build_flow_refuses_bad_volume() {
    assert!(build_flow(7, &flow_config("lots", Some(1)), 9, 1000).is_none());
    assert!(build_flow(7, &flow_config("", Some(1)), 9, 1000).is_none());
}

#[test]
fn config_new_fills_missing_source_ports() {
    let parsed = config("10Gb", vec![vec![flow_config("1MB", None), flow_config("2MB", Some(1234))], vec![]]);
    let c = match Config::new(parsed) {
        Ok(c) => c,
        Err(_) => panic!("configuration refused"),
    };
    assert_eq!(c.ingress_ports.len(), 2);
    let flows = &c.ingress_ports[0].flows;
    assert_eq!(flows.len(), 2);
    let p = flows[0].src_port.unwrap();
    assert!(p >= 40000 && p < 65535);
    assert_eq!(flows[1].src_port, Some(1234));
    assert_eq!(flows[0].volume, "1MB");
    assert_eq!(c.speed, "10Gb");
    assert_eq!(c.mtu, 1500);
}

#[test]
fn config_new_refuses_bad_speed() {
    let parsed = config("fast", vec![vec![flow_config("1MB", None)]]);
    assert!(matches!(Config::new(parsed), Err(ConfigError::InvalidSpeed(_))));
}

#[test]
fn config_new_checks_speed_before_volumes() {
    let parsed = config("fast", vec![vec![flow_config("huge", None)]]);
    assert!(matches!(Config::new(parsed), Err(ConfigError::InvalidSpeed(_))));
}

#[test]
fn config_new_ignores_speed_without_ingress_ports() {
    let parsed = config("fast", vec![]);
    assert!(Config::new(parsed).is_ok());
}

#[test]
fn config_new_refuses_bad_volume() {
    let parsed = config("1Gb", vec![vec![flow_config("1MB", None)], vec![flow_config("x", Some(5))]]);
    assert!(matches!(Config::new(parsed), Err(ConfigError::InvalidVolume(_))));
}

#[test]
fn egress_buffer_drops_when_full() {
    let mut port = EgressPort::new("egress_port_0".to_string(), 1000, 1500, 2);
    let c = port.client_mut();
    c.add_to_buffer();
    c.add_to_buffer();
    assert_eq!(c.buffer_size(), 2);
    c.add_to_buffer();
    assert_eq!(c.buffer_size(), 2);
    let s = c.stats().unwrap();
    assert_eq!(s.dropped_packets, 1);
    assert_eq!(s.rx_packets, 0);
    assert_eq!(s.port_name, "egress_port_0");
}

#[test]
fn egress_transmit_moves_buffer_to_received() {
    let mut port = EgressPort::new("p".to_string(), 1000, 1500, 4);
    assert!(!port.client_mut().transmit_one());
    let c = port.client_mut();
    c.add_to_buffer();
    assert!(c.transmit_one());
    assert!(!c.transmit_one());
    let s = c.stats().unwrap();
    assert_eq!((s.rx_packets, s.rx_bytes, s.tx_bytes, s.tx_packets), (1, 1500, 0, 0));
    assert_eq!(port.bps(), 1000);
    assert_eq!(port.mtu(), 1500);
}

#[test]
fn egress_offered_packets_are_accounted() {
    let mut port = EgressPort::new("p".to_string(), 1000, 100, 3);
    let c = port.client_mut();
    for i in 0..10u64 {
        c.add_to_buffer();
        if i % 3 == 0 {
            c.transmit_one();
        }
        let s = c.stats().unwrap();
        assert_eq!(c.buffer_size() + s.rx_packets + s.dropped_packets, i + 1);
        assert!(c.buffer_size() <= 3);
    }
}

#[test]
fn egress_flow_counts() {
    let mut port = EgressPort::new("p".to_string(), 1000, 100, 3);
    let c = port.client_mut();
    c.inc_flows();
    c.inc_flows();
    c.dec_flows();
    let s = c.stats().unwrap();
    assert_eq!((s.total_flows, s.active_flows), (2, 1));
    c.dec_flows();
    c.dec_flows();
    let s = c.stats().unwrap();
    assert_eq!(s.active_flows, u32::MAX);
}

#[test]
fn static_hash_pins_flow_to_hash_port() {
    let (s, open) = FlowSchedule::begin_with(LoadBalancerMode::StaticHash, 3, 4, 7, 0);
    assert_eq!(s.port, 1);
    let acts = run_flow(s, open);
    let mut expected = vec![PortAction::IncFlows(1)];
    expected.extend(std::iter::repeat(PortAction::AddToBuffer(1)).take(4));
    expected.push(PortAction::DecFlows(1));
    assert_eq!(acts, expected);
}

#[test]
fn static_hash_begin_uses_flow_hash() {
    let f = Flow::new(1, 40001, 80, 2, 10, 10);
    let (s, open) = FlowSchedule::begin(LoadBalancerMode::StaticHash, 5, 3, &f);
    assert_eq!(s.port as u64, f.hash() % 5);
    assert_eq!(open, vec![PortAction::IncFlows(s.port)]);
}

#[test]
fn dfls_switches_at_flowlet_boundaries() {
    let (s, open) = FlowSchedule::begin_with(LoadBalancerMode::Dfls(2), 3, 5, 0, 0);
    assert!(open.is_empty());
    let acts = run_flow(s, open);
    assert_eq!(
        acts,
        vec![
            PortAction::IncFlows(1), PortAction::AddToBuffer(1),
            PortAction::AddToBuffer(1),
            PortAction::IncFlows(2), PortAction::DecFlows(1), PortAction::AddToBuffer(2),
            PortAction::AddToBuffer(2),
            PortAction::IncFlows(0), PortAction::DecFlows(2), PortAction::AddToBuffer(0),
        ]
    );
}

#[test]
fn dfls_rotation_matches_flowlet_count() {
    let (packets, f, n, start) = (23u64, 4u64, 5usize, 3usize);
    let (mut s, _) = FlowSchedule::begin_with(LoadBalancerMode::Dfls(f), n, packets, 0, start);
    for k in 1..=packets {
        s.step();
        let p = packets as i64;
        let k = k as i64;
        let f = f as i64;
        let starts = (p - 1).div_euclid(f) - (p - 1 - k).div_euclid(f);
        assert_eq!(s.port as i64, (start as i64 + starts).rem_euclid(n as i64));
    }
}

#[test]
fn dfls_flow_leaves_last_flowlet_counted() {
    let (s, open) = FlowSchedule::begin_with(LoadBalancerMode::Dfls(3), 4, 10, 0, 2);
    let acts = run_flow(s, open);
    let mut net = [0i64; 4];
    for a in &acts {
        match a {
            PortAction::IncFlows(p) => net[*p] += 1,
            PortAction::DecFlows(p) => net[*p] -= 1,
            PortAction::AddToBuffer(_) => {},
        }
    }
    let offered = acts.iter().filter(|a| matches!(a, PortAction::AddToBuffer(_))).count();
    assert_eq!(offered, 10);
    let mut last = s;
    while last.has_packets() {
        last.step();
    }
    let held = last.prev_port.unwrap() as usize;
    for j in 0..4 {
        assert_eq!(net[j], if j == held { 1 } else { 0 });
    }
}

#[test]
fn dfls_begin_draws_first_port_in_range() {
    let f = Flow::new(1, 40001, 80, 2, 10, 10);
    for _ in 0..100 {
        let (s, open) = FlowSchedule::begin(LoadBalancerMode::Dfls(8), 3, 3, &f);
        assert!(s.port < 3);
        assert!(open.is_empty());
    }
}

#[test]
fn totals_sum_over_ports() {
    let a = PortState { rx_bytes: 3000, rx_packets: 2, ..Default::default() };
    let b = PortState { rx_bytes: 1500, rx_packets: 1, ..Default::default() };
    assert_eq!(total_received(&vec![a.clone(), b]), Some((4500, 3)));
    assert_eq!(total_received(&vec![]), Some((0, 0)));
    let big = PortState { rx_bytes: u64::MAX, rx_packets: 1, ..Default::default() };
    assert_eq!(total_received(&vec![a, big]), None);
}

#[test]
fn network_base_is_ten_slash_eight() {
    assert_eq!(ingress_network_base(), Some(0x0a00_0000));
}

#[test]
fn ingress_addresses() {
    assert_eq!(ingress_source_ip(Some(42), 0x0a00_0000, 3), Some(42));
    assert_eq!(ingress_source_ip(None, 0x0a00_0000, 0), Some(0x0a00_0001));
    assert_eq!(ingress_source_ip(None, 0x0a00_0000, 4), Some(0x0a00_0005));
    assert_eq!(ingress_source_ip(None, u32::MAX - 1, 0), Some(u32::MAX));
    assert_eq!(ingress_source_ip(None, u32::MAX - 1, 1), None);
}

#[test]
fn egress_stats_refuse_overflowing_bytes() {
    let mut port = EgressPort::new("p".to_string(), 1000, 2, 1);
    let c = port.client_mut();
    assert!(c.stats().is_some());
    c.add_to_buffer();
    c.transmit_one();
    assert_eq!(c.stats().unwrap().rx_bytes, 2);
}

#[test]
fn speed_is_read_as_bytes_per_second() {
    let c = config("10Gb", vec![]);
    assert_eq!(c.speed_bps().unwrap(), 10_000_000_000);
    let c = config("10Gbit", vec![]);
    assert_eq!(c.speed_bps().unwrap(), 1_250_000_000);
    let c = config("1KB", vec![]);
    assert_eq!(c.speed_bps().unwrap(), 1000);
    let c = config("fast", vec![]);
    assert!(c.speed_bps().is_err());
}

#[test]
fn egress_feeders_and_line_share_one_buffer() {
    let mut port = EgressPort::new("p".to_string(), 1000, 100, 4);
    let before = port.client().buffer_size();
    port.client_mut().add_to_buffer();
    assert_eq!(port.client().buffer_size(), before + 1);
    port.client_mut().inc_flows();
    assert_eq!(port.client().stats().unwrap().active_flows, 1);
    assert!(port.client_mut().transmit_one());
    let s = port.client().stats().unwrap();
    assert_eq!((port.client().buffer_size(), s.rx_packets, s.rx_bytes), (0, 1, 100));
}

#[test]
fn egress_full_buffer_drops_one_past_capacity() {
    let cap: u32 = 5;
    let mut port = EgressPort::new("p".to_string(), 1000, 100, cap);
    for _ in 0..cap + 1 {
        port.client_mut().add_to_buffer();
    }
    assert_eq!(port.client().buffer_size(), cap as u64);
    assert_eq!(port.client().stats().unwrap().dropped_packets, 1);
}

#[test]
fn dfls_flow_gains_and_losses() {
    let (packets, f): (u64, u64) = (10, 3);
    let (s, open) = FlowSchedule::begin_with(LoadBalancerMode::Dfls(f), 4, packets, 0, 2);
    let acts = run_flow(s, open);
    let gains = acts.iter().filter(|a| matches!(a, PortAction::IncFlows(_))).count() as u64;
    let losses = acts.iter().filter(|a| matches!(a, PortAction::DecFlows(_))).count() as u64;
    assert_eq!(gains, (packets - 1) / f + 1);
    assert_eq!(losses, (packets - 1) / f);
}
