//! Delay determination and delay injection for a latency-emulating HTTP
//! forwarding proxy.
//!
//! For each request the proxy decides how much artificial delay to inject:
//! an explicit per-request override, a delay derived from the geographic
//! distance between client and replica, or none. Half of the delay is spent
//! before the request is forwarded and half after the reply has arrived.
//!
//! The crate holds the decisions; the caller performs the waiting, the
//! forwarding and the distance arithmetic.

pub mod delay_header;
pub mod forwarder;
pub mod headers;
pub mod location_header;
pub mod number_text;
pub mod resolver;
pub mod sites;
