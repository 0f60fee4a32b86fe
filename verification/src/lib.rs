//! Core of a notification relay: clients send short severity messages over a
//! length-prefixed wire protocol; a server aggregates them into escalation
//! state, a peer-name table and a bounded history, and plans a terminal
//! display from that state.
//!
//! The crate holds the pure, verified half of the system: the framing codec,
//! the association handshake and per-connection state machine, the event
//! aggregation rules, and the render planning. All socket, keyboard and
//! terminal I/O lives outside, feeding plain values in and carrying plans out.

pub mod codec;
pub mod conn;
pub mod render;
pub mod state;
pub mod text;
