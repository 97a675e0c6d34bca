//! Adaptive-rate UDP throughput and loss benchmark: wire format, receiver
//! counting, pacing, session decisions and accounting.

pub mod codec;
pub mod payload;
pub mod receiver;
pub mod pacer;
pub mod report;
pub mod session;
pub mod rate;
