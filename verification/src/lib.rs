//! Verified core of a blockchain-node monitoring dashboard.
//!
//! The library holds the logic that turns raw text from a node's
//! metrics endpoint, its JSON-RPC interface and host probes into a
//! consistent, derived view: parsers for the Prometheus exposition
//! format and host-tool output, the JSON-RPC subscription session with
//! its bounded recent-block window, and the aggregator that maintains
//! sliding-window throughput and trend signals.  All quantities that
//! the data sources report as decimal fractions are carried as
//! fixed-point integers (thousandths or hundredths), and every
//! time-dependent computation takes the current time as an explicit
//! argument, so the whole state machine is deterministic and verified.

pub mod fmt;
pub mod json;
pub mod metrics;
pub mod num;
pub mod rpc;
pub mod session;
pub mod state;
pub mod system;
pub mod text;
pub mod ui;
