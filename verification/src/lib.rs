//! Core of an anonymity-preserving overlay transport: session key schedule,
//! stream framing and flow control, SETTINGS negotiation, fixed-size cells,
//! a Wesolowski verifiable delay function, timing obfuscation scheduling,
//! and a metrics/alerting core.

use vstd::prelude::*;

pub mod aead;
pub mod alert;
pub mod bignum;
pub mod cell;
pub mod cli;
pub mod daemon;
pub mod fec;
pub mod flow;
pub mod frame;
pub mod kdf;
pub mod metrics;
pub mod mix;
pub mod noise;
pub mod pairmap;
pub mod report;
pub mod session;
pub mod settings;
pub mod timing;
pub mod vdf;
pub mod webhook;

pub use cli::{default_daemon_endpoint, format_duration};
pub use flow::FlowController;
pub use noise::NoiseHandshake;
pub use session::{pcr_rekey, Session, SessionKey};
pub use settings::StreamSettings;
pub use timing::{Packet, TimingConfig};
pub use alert::{AlertStatistics, AlertSystem};

verus! {

/// Error kinds surfaced by the library.
#[derive(Clone, Copy, PartialEq, Eq, Structural, Debug)]
pub enum NyxError {
    HandshakeFailed,
    NonceExhausted,
    ReplayDetected,
    FlowControlViolation,
    FrameMalformed,
    SettingsMerge,
    FecUnrecoverable,
    VdfProofInvalid,
    PathSelection,
    RouteUnavailable,
    Timeout,
    Cancelled,
    ConfigInvalid,
    Io,
}

} // verus!
