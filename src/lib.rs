//! Command helpers for exercising a half-duplex packet radio: blocking
//! adaptation of poll-based hardware operations, the steps of the transmit,
//! receive, signal-strength and echo commands, and a round-trip link test
//! with signal-strength statistics.

pub mod blocking;
pub mod codec;
pub mod helpers;
pub mod link_test;
pub mod radio;
pub mod stats;

pub use blocking::{
    after_pending, blocking_receive, blocking_transmit, BlockingError, BlockingOptions,
};
pub use codec::{read_i16, read_u32, write_i16, write_u32};
pub use helpers::{
    apply_power, echo_frame, echo_reply, echo_step, receive_poll, receive_step, rssi_round, transmit_round,
    CaptureTarget, EchoOptions, PcapOptions, ReceiveOptions, ReceiveStep, RssiOptions, TransmitOptions,
};
pub use link_test::{check_reply, do_ping_pong, record_round, LinkTestInfo, PingPongOptions};
pub use radio::{Delay, Logged, Power, RadioCall, Receive, ReceiveInfo, Rssi, Transmit};
pub use stats::RssiStats;
