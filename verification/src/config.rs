//! The simulator's configuration, and the checks and defaults applied to it
//! once it is read.

use vstd::prelude::*;
use crate::port::LoadBalancerMode;
use crate::sizes::{byte_size_of, parse_byte_size};
use crate::chance::draw_in_range;
use crate::flow::{SRC_PORT_LOW, SRC_PORT_HIGH};

verus! {

/// The command line: where the configuration file is.
pub struct Args {
    pub config_file: String,
}

/// A flow as configured: its volume as text (such as "10MB"), its
/// destination address as text, and its source port if one is fixed.
#[derive(Clone)]
pub struct FlowConfig {
    pub volume: String,
    pub destination: String,
    pub src_port: Option<u16>,
}

/// An ingress port as configured: its flows, and its source address as text
/// if one is fixed.
#[derive(Clone)]
pub struct InputPortConfig {
    pub flows: Vec<FlowConfig>,
    pub src_ip: Option<String>,
}

#[derive(Clone)]
pub struct Config {
    pub ingress_ports: Vec<InputPortConfig>,
    /// Packets each egress buffer holds.
    pub buffer_size: u32,
    /// The number of egress ports.
    pub egress_ports: u16,
    /// The line rate of every port, as text (such as "10Gb").
    pub speed: String,
    pub mode: LoadBalancerMode,
    pub mtu: u16,
}

/// Why a configuration is refused, with the error of the size that could not
/// be read.
#[derive(Debug)]
pub enum ConfigError {
    InvalidSpeed(byte_unit::ParseError),
    InvalidVolume(byte_unit::ParseError),
}

impl FlowConfig {
    /// `self` is `parsed` with a source port where it had none: the one it
    /// had, or one drawn from the range for source ports.
    pub open spec fn completes(self, parsed: FlowConfig) -> bool {
        &&& self.volume == parsed.volume
        &&& self.destination == parsed.destination
        &&& match parsed.src_port {
            Some(p) => self.src_port == Some(p),
            None => self.src_port matches Some(q) && SRC_PORT_LOW <= q < SRC_PORT_HIGH,
        }
    }

    /// The flow with its source port filled by `drawn` if it had none.
    pub fn with_src_port(self, drawn: u16) -> (f: FlowConfig)
        ensures
            f.volume == self.volume,
            f.destination == self.destination,
            f.src_port == Some(
                match self.src_port {
                    Some(p) => p,
                    None => drawn,
                },
            ),
    {
        let FlowConfig { volume, destination, src_port } = self;
        let port: u16 = match src_port {
            Some(p) => p,
            None => drawn,
        };
        FlowConfig { volume, destination, src_port: Some(port) }
    }
}

impl InputPortConfig {
    /// `self` is `parsed` with each flow completed.
    pub open spec fn completes(self, parsed: InputPortConfig) -> bool {
        &&& self.src_ip == parsed.src_ip
        &&& self.flows.len() == parsed.flows.len()
        &&& forall|j: int| 0 <= j < self.flows.len() ==> #[trigger] self.flows@[j].completes(parsed.flows@[j])
    }

    /// Every flow's volume can be read.
    pub open spec fn volumes_valid(self) -> bool {
        forall|j: int| 0 <= j < self.flows.len() ==> (#[trigger] byte_size_of(self.flows@[j].volume@)) is Some
    }
}

impl Config {
    /// The speed is refused: it cannot be read, and there is an ingress port
    /// to check it for.
    pub open spec fn speed_refused(self) -> bool {
        &&& self.ingress_ports.len() > 0
        &&& byte_size_of(self.speed@) is None
    }

    /// Some flow's volume cannot be read.
    pub open spec fn volume_refused(self) -> bool {
        exists|i: int| 0 <= i < self.ingress_ports.len() && !(#[trigger] self.ingress_ports@[i]).volumes_valid()
    }

    /// `self` is `parsed` with every flow completed and all else unchanged.
    pub open spec fn completes(self, parsed: Config) -> bool {
        &&& self.buffer_size == parsed.buffer_size
        &&& self.egress_ports == parsed.egress_ports
        &&& self.speed == parsed.speed
        &&& self.mode == parsed.mode
        &&& self.mtu == parsed.mtu
        &&& self.ingress_ports.len() == parsed.ingress_ports.len()
        &&& forall|i: int|
            0 <= i < self.ingress_ports.len() ==> #[trigger] self.ingress_ports@[i].completes(parsed.ingress_ports@[i])
    }

    /// The line rate of the ports, in bytes per second, read from the speed.
    pub fn speed_bps(&self) -> (r: Result<u64, byte_unit::ParseError>)
        ensures
            r is Ok <==> byte_size_of(self.speed@) is Some,
            r matches Ok(v) ==> byte_size_of(self.speed@) == Some(v),
    {
        parse_byte_size(self.speed.as_str())
    }

    /// Checks a configuration as read from its file and gives a source port
    /// to every flow without one. The speed is checked for each ingress port
    /// (so not at all when there is none), before that port's flows; a flow
    /// whose volume cannot be read refuses the whole configuration.
    pub fn new(parsed: Config) -> (r: Result<Config, ConfigError>)
        ensures
            r matches Err(ConfigError::InvalidSpeed(_)) <==> parsed.speed_refused(),
            r matches Err(ConfigError::InvalidVolume(_)) <==> !parsed.speed_refused() && parsed.volume_refused(),
            r is Ok <==> !parsed.speed_refused() && !parsed.volume_refused(),
            r matches Ok(c) ==> c.completes(parsed),
    {
        let Config { ingress_ports, buffer_size, egress_ports, speed, mode, mtu } = parsed;
        let ghost ports = ingress_ports@;
        let mut rest: Vec<InputPortConfig> = ingress_ports;
        let mut done: Vec<InputPortConfig> = Vec::new();
        while rest.len() > 0
            invariant
                ports == parsed.ingress_ports@,
                speed == parsed.speed,
                rest@ == ports.skip(done.len() as int),
                done.len() <= ports.len(),
                done.len() > 0 ==> byte_size_of(speed@) is Some,
                forall|i: int| 0 <= i < done.len() ==> #[trigger] done@[i].completes(ports[i]),
                forall|i: int| 0 <= i < done.len() ==> (#[trigger] ports[i]).volumes_valid(),
            decreases rest.len(),
        {
            match parse_byte_size(speed.as_str()) {
                Err(e) => {
                    proof {
                        assert(parsed.speed_refused());
                    }
                    return Err(ConfigError::InvalidSpeed(e));
                },
                Ok(_) => {},
            }
            let port: InputPortConfig = rest.remove(0);
            let ghost i: int = done.len() as int;
            assert(port == ports[i]);
            assert(byte_size_of(speed@) is Some);
            let InputPortConfig { flows, src_ip } = port;
            let ghost flows0 = flows@;
            let mut todo: Vec<FlowConfig> = flows;
            let mut filled: Vec<FlowConfig> = Vec::new();
            while todo.len() > 0
                invariant
                    ports == parsed.ingress_ports@,
                    speed == parsed.speed,
                    0 <= i < ports.len(),
                    flows0 == ports[i].flows@,
                    byte_size_of(speed@) is Some,
                    todo@ == flows0.skip(filled.len() as int),
                    filled.len() <= flows0.len(),
                    forall|j: int| 0 <= j < filled.len() ==> #[trigger] filled@[j].completes(flows0[j]),
                    forall|j: int| 0 <= j < filled.len() ==> (#[trigger] byte_size_of(flows0[j].volume@)) is Some,
                decreases todo.len(),
            {
                let flow: FlowConfig = todo.remove(0);
                let ghost j: int = filled.len() as int;
                assert(flow == flows0[j]);
                match parse_byte_size(flow.volume.as_str()) {
                    Err(e) => {
                        proof {
                            assert(byte_size_of(ports[i].flows@[j].volume@) is None);
                            assert(!ports[i].volumes_valid());
                            assert(parsed.volume_refused());
                        }
                        return Err(ConfigError::InvalidVolume(e));
                    },
                    Ok(_) => {},
                }
                let flow: FlowConfig = if flow.src_port.is_none() {
                    let drawn: u64 = draw_in_range(SRC_PORT_LOW as u64, SRC_PORT_HIGH as u64);
                    flow.with_src_port(drawn as u16)
                } else {
                    flow
                };
                filled.push(flow);
            }
            done.push(InputPortConfig { flows: filled, src_ip });
            proof {
                assert(done@[i].completes(ports[i]));
                assert(ports[i].volumes_valid());
            }
        }
        let c = Config { ingress_ports: done, buffer_size, egress_ports, speed, mode, mtu };
        proof {
            assert(done.len() == ports.len());
            assert(!parsed.volume_refused());
        }
        Ok(c)
    }
}

/// Completing a flow keeps its volume and destination, keeps a configured
/// source port, and gives a flow without one a port from 40000 up to 65534.
pub proof fn lemma_completed_flow_ports(parsed: FlowConfig, done: FlowConfig)
    requires
        done.completes(parsed),
    ensures
        done.volume == parsed.volume,
        done.destination == parsed.destination,
        parsed.src_port matches Some(p) ==> done.src_port == Some(p),
        parsed.src_port is None ==> (done.src_port matches Some(q) && 40000 <= q && q <= 65534),
{
    crate::flow::lemma_port_numbers();
}

/// A configuration that `Config::new` accepted can be run: when it has an
/// ingress port its speed can be read, and every flow's volume can be read
/// and the flow has a source port, so building the flow neither fails nor
/// draws a port.
pub proof fn lemma_accepted_config_runs(parsed: Config, accepted: Config, i: int, j: int)
    requires
        !parsed.speed_refused(),
        !parsed.volume_refused(),
        accepted.completes(parsed),
        0 <= i < accepted.ingress_ports.len(),
        0 <= j < accepted.ingress_ports@[i].flows.len(),
    ensures
        byte_size_of(accepted.speed@) is Some,
        byte_size_of(accepted.ingress_ports@[i].flows@[j].volume@) is Some,
        accepted.ingress_ports@[i].flows@[j].src_port is Some,
{
    let p = parsed.ingress_ports@[i];
    assert(accepted.ingress_ports@[i].completes(p));
    assert(p.volumes_valid());
    assert(accepted.ingress_ports@[i].flows@[j].completes(p.flows@[j]));
    assert(byte_size_of(p.flows@[j].volume@) is Some);
}

} // verus!
