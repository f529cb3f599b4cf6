//! A verified cross-context event bridge: typed commands arrive from a host
//! environment as raw values, are decoded against a closed wire vocabulary,
//! queued, and drained one per simulation tick; typed events produced by the
//! simulation are encoded and forwarded to the host's ancestor context,
//! guarded against self-echo.
//!
//! The modules, leaves first: [`messages`] holds the typed contracts,
//! [`number`] the validated numeric wire text, [`chars`] shared text
//! helpers, [`wire`] the wire codec with its round-trip law, [`queue`] the
//! unbounded FIFO of decoded commands, [`decode`] the two inbound decode
//! strategies, and [`bridge`] the lifecycle object tying them together.

pub mod bridge;
pub mod chars;
pub mod decode;
pub mod messages;
pub mod number;
pub mod queue;
pub mod wire;
