//! A packet-level simulator of a switch that spreads flows from ingress ports
//! over egress ports, either by a static hash of each flow or by flowlets.

pub mod sizes;
pub mod port;
pub mod schedule;
pub mod chance;
pub mod config;
pub mod flow;
pub mod network;
pub mod runner;
