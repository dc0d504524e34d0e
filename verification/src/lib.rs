//! Connection monitoring: the rules by which probe output becomes latency
//! samples, a probe session is supervised, and throughput records are kept.

pub mod sample;
pub mod session;
pub mod sink;
pub mod throughput;
