//! The association handshake and the per-connection state machine.
//!
//! A connection runs `Handshaking -> Associated -> Closed`. It must present
//! the exact two-byte request within the handshake window to be trusted;
//! only then is a Connect event emitted. Once associated, every frame is
//! decoded into a packet event, and the first decode failure, zero-length
//! read or transport error closes the connection with a Disconnect event.
//! The socket work around this machine lives outside the library: it hands
//! in what happened on the wire and carries the resulting action out.

use vstd::prelude::*;
use vstd::utf8::{decode_utf8, valid_utf8};
use crate::codec::{decode_frame, lossy_decode, spec_decode_frame, DecodedFrame, Packet,
    PacketView};

verus! {

/// The lifecycle of one accepted connection.
#[derive(Debug, Clone, Copy, PartialEq, Eq, Structural)]
pub enum ConnState {
    /// Not yet trusted; `request_seen` once the two-byte request arrived.
    Handshaking { request_seen: bool },
    /// Fully associated: framed packets are read indefinitely.
    Associated,
    /// Terminated; nothing further happens.
    Closed,
}

/// What the wire reported to the connection driver.
pub enum ConnEvent {
    /// A read during the handshake returned `n_read` bytes into `bytes`.
    HelloRead { n_read: usize, bytes: [u8; 2] },
    /// The two-byte accept was written; `n_written` bytes went out.
    AcceptWritten { n_written: usize },
    /// One frame was read: its length byte and the bytes after it.
    FrameRead { len_byte: u8, body: Vec<u8> },
    /// A read returned zero bytes: the peer closed.
    PeerClosed,
    /// A read failed or timed out.
    ReadFailed,
    /// A write failed or timed out.
    WriteFailed,
}

/// Mathematical image of a `ConnEvent`.
pub ghost enum ConnEventView {
    HelloRead { n_read: usize, bytes: Seq<u8> },
    AcceptWritten { n_written: usize },
    FrameRead { len_byte: u8, body: Seq<u8> },
    PeerClosed,
    ReadFailed,
    WriteFailed,
}

impl View for ConnEvent {
    type V = ConnEventView;

    open spec fn view(&self) -> ConnEventView {
        match self {
            ConnEvent::HelloRead { n_read, bytes } => ConnEventView::HelloRead {
                n_read: *n_read,
                bytes: bytes@,
            },
            ConnEvent::AcceptWritten { n_written } => ConnEventView::AcceptWritten {
                n_written: *n_written,
            },
            ConnEvent::FrameRead { len_byte, body } => ConnEventView::FrameRead {
                len_byte: *len_byte,
                body: body@,
            },
            ConnEvent::PeerClosed => ConnEventView::PeerClosed,
            ConnEvent::ReadFailed => ConnEventView::ReadFailed,
            ConnEvent::WriteFailed => ConnEventView::WriteFailed,
        }
    }
}

/// What the driver must do after one step.
pub enum ConnAction {
    /// Write the two-byte accept.
    SendAccept,
    /// The peer is trusted now: emit a Connect event.
    EmitConnect,
    /// A packet arrived: emit it.
    EmitPacket(Packet),
    /// Close the socket and emit a Disconnect event.
    EmitDisconnect,
    /// Close the socket and emit nothing.
    DropSilently,
}

/// Mathematical image of a `ConnAction`.
pub ghost enum ConnActionView {
    SendAccept,
    EmitConnect,
    EmitPacket(PacketView),
    EmitDisconnect,
    DropSilently,
}

impl View for ConnAction {
    type V = ConnActionView;

    open spec fn view(&self) -> ConnActionView {
        match self {
            ConnAction::SendAccept => ConnActionView::SendAccept,
            ConnAction::EmitConnect => ConnActionView::EmitConnect,
            ConnAction::EmitPacket(p) => ConnActionView::EmitPacket(p@),
            ConnAction::EmitDisconnect => ConnActionView::EmitDisconnect,
            ConnAction::DropSilently => ConnActionView::DropSilently,
        }
    }
}

/// Whether a handshake read delivered the exact two-byte request, `[0, 0]`,
/// in one two-byte read.
pub open spec fn spec_valid_hello(e: ConnEventView) -> bool {
    e matches ConnEventView::HelloRead { n_read, bytes } && n_read == 2 && bytes.len() == 2
        && bytes[0] == 0 && bytes[1] == 0
}

/// The packet a decoded frame stands for: its kind, and the lossy decoding
/// of its payload where one is present.
pub open spec fn spec_packet_of(d: DecodedFrame) -> PacketView {
    PacketView {
        packet_type: d.packet_type,
        text: if d.payload.len() == 0 {
            None
        } else {
            Some(lossy_decode(d.payload))
        },
    }
}

/// One step of the connection machine: the successor state and the action
/// the driver owes.
pub open spec fn spec_conn_step(s: ConnState, e: ConnEventView) -> (ConnState, ConnActionView) {
    match s {
        ConnState::Handshaking { request_seen } => {
            if !request_seen {
                if spec_valid_hello(e) {
                    (
                        ConnState::Handshaking { request_seen: true },
                        ConnActionView::SendAccept,
                    )
                } else {
                    (ConnState::Closed, ConnActionView::DropSilently)
                }
            } else {
                match e {
                    ConnEventView::AcceptWritten { n_written } => {
                        if n_written == 2 {
                            (ConnState::Associated, ConnActionView::EmitConnect)
                        } else {
                            (ConnState::Closed, ConnActionView::DropSilently)
                        }
                    },
                    _ => (ConnState::Closed, ConnActionView::DropSilently),
                }
            }
        },
        ConnState::Associated => {
            match e {
                ConnEventView::FrameRead { len_byte, body } => {
                    match spec_decode_frame(len_byte, body) {
                        Ok(d) => (ConnState::Associated, ConnActionView::EmitPacket(
                            spec_packet_of(d),
                        )),
                        Err(_) => (ConnState::Closed, ConnActionView::EmitDisconnect),
                    }
                },
                _ => (ConnState::Closed, ConnActionView::EmitDisconnect),
            }
        },
        ConnState::Closed => (ConnState::Closed, ConnActionView::DropSilently),
    }
}

/// The two bytes a client sends to ask for association.
pub fn association_request() -> (r: [u8; 2])
    ensures
        r@.len() == 2,
        r@[0] == 0,
        r@[1] == 0,
{
    [0, 0]
}

/// The two bytes the server answers a valid request with.
pub fn association_accept() -> (r: [u8; 2])
    ensures
        r@.len() == 2,
        r@[0] == 1,
        r@[1] == 1,
{
    [1, 1]
}

/// Whether a handshake read delivered the exact two-byte request.
pub fn is_association_request(n_read: usize, bytes: &[u8; 2]) -> (r: bool)
    ensures
        r == (n_read == 2 && bytes@[0] == 0 && bytes@[1] == 0),
{
    n_read == 2 && bytes[0] == 0 && bytes[1] == 0
}

/// Whether the server's reply is the exact two-byte accept, `[1, 1]`. The
/// client drops the connection on anything else.
pub fn is_association_accept(n_read: usize, bytes: &[u8; 2]) -> (r: bool)
    ensures
        r == (n_read == 2 && bytes@[0] == 1 && bytes@[1] == 1),
{
    n_read == 2 && bytes[0] == 1 && bytes[1] == 1
}

/// Drive the connection machine one step.
pub fn conn_step(s: ConnState, e: ConnEvent) -> (r: (ConnState, ConnAction))
    ensures
        r.0 == spec_conn_step(s, e@).0,
        r.1@ == spec_conn_step(s, e@).1,
        (spec_conn_step(s, e@).1 matches ConnActionView::EmitPacket(pv) ==> r.1 matches
            ConnAction::EmitPacket(p) && p@ == pv),
        (e@ matches ConnEventView::FrameRead { len_byte, body } ==> (spec_decode_frame(
            len_byte,
            body,
        ) matches Ok(d) ==> (d.payload.len() != 0 && valid_utf8(d.payload) ==> (r.1 matches
            ConnAction::EmitPacket(p) ==> p@.text == Some(decode_utf8(d.payload)))))),
{
    match s {
        ConnState::Handshaking { request_seen } => {
            if !request_seen {
                if let ConnEvent::HelloRead { n_read, bytes } = &e {
                    if is_association_request(*n_read, bytes) {
                        return (
                            ConnState::Handshaking { request_seen: true },
                            ConnAction::SendAccept,
                        );
                    }
                }
                (ConnState::Closed, ConnAction::DropSilently)
            } else {
                if let ConnEvent::AcceptWritten { n_written } = &e {
                    if *n_written == 2 {
                        return (ConnState::Associated, ConnAction::EmitConnect);
                    }
                }
                (ConnState::Closed, ConnAction::DropSilently)
            }
        },
        ConnState::Associated => {
            if let ConnEvent::FrameRead { len_byte, body } = &e {
                match decode_frame(*len_byte, body.as_slice()) {
                    Ok(p) => (ConnState::Associated, ConnAction::EmitPacket(p)),
                    Err(_) => (ConnState::Closed, ConnAction::EmitDisconnect),
                }
            } else {
                (ConnState::Closed, ConnAction::EmitDisconnect)
            }
        },
        ConnState::Closed => (ConnState::Closed, ConnAction::DropSilently),
    }
}

/// The state the machine reaches after a whole sequence of events.
pub open spec fn spec_run_state(s: ConnState, events: Seq<ConnEventView>) -> ConnState
    decreases events.len(),
{
    if events.len() == 0 {
        s
    } else {
        spec_run_state(spec_conn_step(s, events[0]).0, events.drop_first())
    }
}

/// Whether any step of a run emits a Connect event.
pub open spec fn spec_run_emits_connect(s: ConnState, events: Seq<ConnEventView>) -> bool
    decreases events.len(),
{
    if events.len() == 0 {
        false
    } else {
        spec_conn_step(s, events[0]).1 == ConnActionView::EmitConnect || spec_run_emits_connect(
            spec_conn_step(s, events[0]).0,
            events.drop_first(),
        )
    }
}

/// Handshake gating: however many events arrive, a connection that never
/// delivers the exact two-byte request in time never emits a Connect event
/// and never reaches the associated state; a timed-out or malformed
/// handshake is dropped silently.
pub proof fn lemma_no_connect_without_request(s: ConnState, events: Seq<ConnEventView>)
    requires
        s == (ConnState::Handshaking { request_seen: false }) || s == ConnState::Closed,
        forall|i: int| 0 <= i < events.len() ==> !spec_valid_hello(#[trigger] events[i]),
    ensures
        !spec_run_emits_connect(s, events),
        spec_run_state(s, events) == (ConnState::Handshaking { request_seen: false })
            || spec_run_state(s, events) == ConnState::Closed,
    decreases events.len(),
{
    if events.len() > 0 {
        assert(!spec_valid_hello(events[0]));
        lemma_no_connect_without_request(spec_conn_step(s, events[0]).0, events.drop_first());
    }
}

/// Malformed frame rejection: an associated connection handed a frame that
/// the codec rejects moves to Closed with a Disconnect event and emits no
/// Packet event for that frame.
pub proof fn lemma_malformed_frame_closes(len_byte: u8, body: Seq<u8>)
    requires
        spec_decode_frame(len_byte, body) is Err,
    ensures
        spec_conn_step(ConnState::Associated, ConnEventView::FrameRead { len_byte, body }) == (
            ConnState::Closed,
            ConnActionView::EmitDisconnect,
        ),
{
}

} // verus!
