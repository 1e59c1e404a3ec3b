//! Envelope delivery transport: proxy selection, rate limiting and an
//! ordered single-consumer delivery worker, as sans-I/O state machines.

pub mod httpdate;
pub mod proxy;
pub mod ratelimit;
pub mod text;
pub mod transport;
pub mod worker;
