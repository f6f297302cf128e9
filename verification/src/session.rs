//! The session state machine: the decisions of the client's event loop.
//!
//! One iteration of the loop gathers freshly typed bytes and at most one
//! decoded telnet event, and `Session::step` turns them into an ordered
//! list of operations for the caller to perform: remote writes for each
//! completed input line first, then the reaction to the event. The
//! caller owns all I/O; everything decided here is verified.

use vstd::prelude::*;
use crate::pump::InputPump;
use crate::pump::complete_lines;
use crate::pump::pending_rest;
use crate::pump::LINE_END;

verus! {

/// The telnet option code for echo.
pub const ECHO_OPTION: u8 = 1;

/// The vendor-extension option code for the metadata side-channel.
pub const GMCP_OPTION: u8 = 201;

/// A carriage return byte; a chunk ending in one defers its flush.
pub const CARRIAGE_RETURN: u8 = 13;

/// A telnet negotiation verb.
#[derive(Clone, Copy, Debug, PartialEq, Eq, Structural)]
pub enum TelnetAction {
    Will,
    Wont,
    Do,
    Dont,
}

/// One decoded happening on the remote stream, or the lack of one.
#[derive(Debug, PartialEq, Eq)]
pub enum SessionEvent {
    /// Plain remote output bytes.
    Data(Vec<u8>),
    /// A negotiation verb for an option code.
    Negotiation(TelnetAction, u8),
    /// A subnegotiation payload for an option code.
    Subnegotiation(u8, Vec<u8>),
    /// A protocol-level error, reported by the decoder.
    ProtocolError(String),
    /// Nothing to read right now.
    NoEvent,
}

/// The mathematical shape of a `SessionEvent`.
pub enum EventModel {
    Data(Seq<u8>),
    Negotiation(TelnetAction, u8),
    Subnegotiation(u8, Seq<u8>),
    ProtocolError(Seq<char>),
    NoEvent,
}

impl View for SessionEvent {
    type V = EventModel;

    open spec fn view(&self) -> EventModel {
        match self {
            SessionEvent::Data(bytes) => EventModel::Data(bytes@),
            SessionEvent::Negotiation(action, option) => EventModel::Negotiation(
                *action,
                *option,
            ),
            SessionEvent::Subnegotiation(option, payload) => EventModel::Subnegotiation(
                *option,
                payload@,
            ),
            SessionEvent::ProtocolError(message) => EventModel::ProtocolError(message@),
            SessionEvent::NoEvent => EventModel::NoEvent,
        }
    }
}

/// One operation the caller must perform, in list order.
#[derive(Debug, PartialEq, Eq)]
pub enum SessionOp {
    /// Write these bytes to the remote stream.
    SendRemote(Vec<u8>),
    /// Write these bytes to local output, flushing it when `flush` holds.
    EmitOutput { bytes: Vec<u8>, flush: bool },
    /// Set local terminal echo to this state.
    SetEcho(bool),
    /// Send this negotiation verb for this option code.
    SendNegotiation(TelnetAction, u8),
    /// Send this subnegotiation payload for this option code.
    SendSubnegotiation(u8, String),
    /// Surface this metadata payload to the user.
    ShowGmcp(Vec<u8>),
    /// Report this protocol error to the user.
    ShowError(String),
}

/// The mathematical shape of a `SessionOp`.
pub enum OpModel {
    SendRemote(Seq<u8>),
    EmitOutput { bytes: Seq<u8>, flush: bool },
    SetEcho(bool),
    SendNegotiation(TelnetAction, u8),
    SendSubnegotiation(u8, Seq<char>),
    ShowGmcp(Seq<u8>),
    ShowError(Seq<char>),
}

impl View for SessionOp {
    type V = OpModel;

    open spec fn view(&self) -> OpModel {
        match self {
            SessionOp::SendRemote(bytes) => OpModel::SendRemote(bytes@),
            SessionOp::EmitOutput { bytes, flush } => OpModel::EmitOutput {
                bytes: bytes@,
                flush: *flush,
            },
            SessionOp::SetEcho(enabled) => OpModel::SetEcho(*enabled),
            SessionOp::SendNegotiation(action, option) => OpModel::SendNegotiation(
                *action,
                *option,
            ),
            SessionOp::SendSubnegotiation(option, payload) => OpModel::SendSubnegotiation(
                *option,
                payload@,
            ),
            SessionOp::ShowGmcp(payload) => OpModel::ShowGmcp(payload@),
            SessionOp::ShowError(message) => OpModel::ShowError(message@),
        }
    }
}

/// The identification payload of the metadata handshake.
pub open spec fn gmcp_hello_text() -> Seq<char> {
    "Core.Hello { \"client\": \"avatarmud-client-rs\", \"version\": \"0.1.0\" }"@
}

/// The capability payload of the metadata handshake.
pub open spec fn gmcp_supports_text() -> Seq<char> {
    "Core.Supports.Set [ \"Core 1\",\"Char 1\",\"Room 1\",\"Comm 1\",\"IRE.Composer 1\" ]"@
}

/// Builds the identification payload.
pub fn gmcp_hello() -> (r: String)
    ensures
        r@ == gmcp_hello_text(),
{
    "Core.Hello { \"client\": \"avatarmud-client-rs\", \"version\": \"0.1.0\" }".to_owned()
}

/// Builds the capability payload.
pub fn gmcp_supports() -> (r: String)
    ensures
        r@ == gmcp_supports_text(),
{
    "Core.Supports.Set [ \"Core 1\",\"Char 1\",\"Room 1\",\"Comm 1\",\"IRE.Composer 1\" ]".to_owned()
}

/// The operations a negotiation verb for an option draws in reply.
pub open spec fn negotiation_ops(action: TelnetAction, option: u8) -> Seq<OpModel> {
    if option == ECHO_OPTION && action is Wont {
        seq![OpModel::SetEcho(true)]
    } else if option == ECHO_OPTION && action is Will {
        seq![OpModel::SetEcho(false)]
    } else if option == GMCP_OPTION && action is Will {
        seq![
            OpModel::SendNegotiation(TelnetAction::Do, GMCP_OPTION),
            OpModel::SendSubnegotiation(GMCP_OPTION, gmcp_hello_text()),
            OpModel::SendSubnegotiation(GMCP_OPTION, gmcp_supports_text()),
        ]
    } else {
        Seq::empty()
    }
}

/// The operations one event draws.
pub open spec fn react_ops(e: EventModel) -> Seq<OpModel> {
    match e {
        EventModel::Data(bytes) => seq![
            OpModel::EmitOutput { bytes, flush: bytes.last() != CARRIAGE_RETURN },
        ],
        EventModel::Negotiation(action, option) => negotiation_ops(action, option),
        EventModel::Subnegotiation(option, payload) => if option == GMCP_OPTION {
            seq![OpModel::ShowGmcp(payload)]
        } else {
            Seq::empty()
        },
        EventModel::ProtocolError(message) => seq![OpModel::ShowError(message)],
        EventModel::NoEvent => Seq::empty(),
    }
}

/// Whether an event ends the session.
pub open spec fn react_stops(e: EventModel) -> bool {
    e is ProtocolError
}

/// Reacts to one decoded event.
pub fn react(event: SessionEvent) -> (r: (Vec<SessionOp>, bool))
    requires
        event@ matches EventModel::Data(bytes) ==> bytes.len() > 0,
    ensures
        r.0@.map_values(|op: SessionOp| op@) == react_ops(event@),
        r.1 == react_stops(event@),
{
    let ghost e = event@;
    let mut ops: Vec<SessionOp> = Vec::new();
    let mut stop: bool = false;
    match event {
        SessionEvent::Data(bytes) => {
            let flush = bytes[bytes.len() - 1] != CARRIAGE_RETURN;
            ops.push(SessionOp::EmitOutput { bytes, flush });
        },
        SessionEvent::Negotiation(action, option) => {
            match action {
                TelnetAction::Wont => {
                    if option == ECHO_OPTION {
                        ops.push(SessionOp::SetEcho(true));
                    }
                },
                TelnetAction::Will => {
                    if option == ECHO_OPTION {
                        ops.push(SessionOp::SetEcho(false));
                    } else if option == GMCP_OPTION {
                        ops.push(SessionOp::SendNegotiation(TelnetAction::Do, GMCP_OPTION));
                        ops.push(SessionOp::SendSubnegotiation(GMCP_OPTION, gmcp_hello()));
                        ops.push(SessionOp::SendSubnegotiation(GMCP_OPTION, gmcp_supports()));
                    }
                },
                _ => {},
            }
        },
        SessionEvent::Subnegotiation(option, payload) => {
            if option == GMCP_OPTION {
                ops.push(SessionOp::ShowGmcp(payload));
            }
        },
        SessionEvent::ProtocolError(message) => {
            ops.push(SessionOp::ShowError(message));
            stop = true;
        },
        SessionEvent::NoEvent => {},
    }
    proof {
        assert(ops@.map_values(|op: SessionOp| op@) =~= react_ops(e));
    }
    (ops, stop)
}

/// The remote writes owed for completed input lines: each line as one
/// write, followed by a one-byte newline write of its own.
pub open spec fn outbound_ops(lines: Seq<Seq<u8>>) -> Seq<OpModel>
    decreases lines.len(),
{
    if lines.len() == 0 {
        Seq::empty()
    } else {
        outbound_ops(lines.drop_last()) + seq![
            OpModel::SendRemote(lines.last()),
            OpModel::SendRemote(seq![LINE_END]),
        ]
    }
}

/// Everything one loop iteration must do, in order: the remote writes
/// for the lines the typed bytes complete, then the reaction to the
/// remote event.
pub open spec fn step_ops(pending: Seq<u8>, input: Seq<u8>, e: EventModel) -> Seq<OpModel> {
    outbound_ops(complete_lines(pending + input)) + react_ops(e)
}

/// The session loop's state: the input buffered so far. Its view is the
/// pending input bytes.
pub struct Session {
    pump: InputPump,
}

impl View for Session {
    type V = Seq<u8>;

    closed spec fn view(&self) -> Seq<u8> {
        self.pump@
    }
}

impl Session {
    /// A fresh session with nothing buffered.
    pub fn new() -> (r: Session)
        ensures
            r@ == Seq::<u8>::empty(),
    {
        Session { pump: InputPump::new() }
    }

    /// The typed bytes no newline has completed yet.
    pub fn pending_bytes(&self) -> (r: &Vec<u8>)
        ensures
            r@ == self@,
    {
        self.pump.pending_bytes()
    }

    /// One iteration's decisions: buffers the typed bytes, and returns
    /// the operations owed — remote writes for each completed line, in
    /// order, then the reaction to `event` — with whether the session
    /// is over.
    pub fn step(&mut self, input: &[u8], event: SessionEvent) -> (r: (Vec<SessionOp>, bool))
        requires
            event@ matches EventModel::Data(bytes) ==> bytes.len() > 0,
        ensures
            r.0@.map_values(|op: SessionOp| op@) == step_ops(old(self)@, input@, event@),
            r.1 == react_stops(event@),
            final(self)@ == pending_rest(old(self)@ + input@),
    {
        let mut lines = self.pump.poll(input);
        let ghost all_lines: Seq<Seq<u8>> = lines@.map_values(|l: Vec<u8>| l@);
        let mut ops: Vec<SessionOp> = Vec::new();
        let ghost total: int = all_lines.len() as int;
        while lines.len() > 0
            invariant
                lines@.map_values(|l: Vec<u8>| l@) == all_lines.skip(
                    total - lines@.len(),
                ),
                lines@.len() <= total == all_lines.len(),
                ops@.map_values(|op: SessionOp| op@) == outbound_ops(
                    all_lines.take(total - lines@.len()),
                ),
            decreases lines@.len(),
        {
            let ghost done: int = total - lines@.len();
            let ghost pre: Seq<Vec<u8>> = lines@;
            let line = lines.remove(0);
            proof {
                assert(pre.map_values(|l: Vec<u8>| l@)[0] == line@);
                assert(all_lines.skip(done)[0] == all_lines[done]);
                assert(line@ == all_lines[done]);
                assert forall|k: int| 0 <= k < lines@.len() implies lines@.map_values(
                    |l: Vec<u8>| l@,
                )[k] == #[trigger] (all_lines.skip(done + 1)[k]) by {
                    assert(lines@[k] == pre[k + 1]);
                    assert(pre.map_values(|l: Vec<u8>| l@)[k + 1] == pre[k + 1]@);
                    assert(all_lines.skip(done)[k + 1] == all_lines[done + k + 1]);
                    assert(all_lines.skip(done + 1)[k] == all_lines[done + k + 1]);
                }
                assert(lines@.map_values(|l: Vec<u8>| l@) =~= all_lines.skip(done + 1));
            }
            let ghost before = ops@.map_values(|op: SessionOp| op@);
            ops.push(SessionOp::SendRemote(line));
            let mut newline: Vec<u8> = Vec::new();
            newline.push(LINE_END);
            ops.push(SessionOp::SendRemote(newline));
            proof {
                assert(all_lines.take(done + 1).drop_last() =~= all_lines.take(done));
                assert(ops@.map_values(|op: SessionOp| op@) =~= before + seq![
                    OpModel::SendRemote(all_lines[done]),
                    OpModel::SendRemote(seq![LINE_END]),
                ]);
                assert(ops@.map_values(|op: SessionOp| op@) =~= outbound_ops(
                    all_lines.take(done + 1),
                ));
            }
        }
        proof {
            assert(all_lines.take(total) =~= all_lines);
        }
        let (mut reaction, stop) = react(event);
        let ghost outbound = ops@.map_values(|op: SessionOp| op@);
        let ghost reacted = reaction@.map_values(|op: SessionOp| op@);
        ops.append(&mut reaction);
        proof {
            assert(ops@.map_values(|op: SessionOp| op@) =~= outbound + reacted);
        }
        (ops, stop)
    }
}

/// The echo rule: the server claiming the echo option turns local echo
/// off, and nothing else; the server waiving it turns local echo back
/// on, and nothing else.
pub proof fn lemma_echo_negotiation()
    ensures
        react_ops(EventModel::Negotiation(TelnetAction::Will, ECHO_OPTION)) == seq![
            OpModel::SetEcho(false),
        ],
        react_ops(EventModel::Negotiation(TelnetAction::Wont, ECHO_OPTION)) == seq![
            OpModel::SetEcho(true),
        ],
{
}

/// The metadata handshake: the server offering the metadata option
/// draws exactly three replies, in order — accepting the option, the
/// identification payload, the capability payload.
pub proof fn lemma_gmcp_handshake()
    ensures
        react_ops(EventModel::Negotiation(TelnetAction::Will, GMCP_OPTION)) == seq![
            OpModel::SendNegotiation(TelnetAction::Do, GMCP_OPTION),
            OpModel::SendSubnegotiation(GMCP_OPTION, gmcp_hello_text()),
            OpModel::SendSubnegotiation(GMCP_OPTION, gmcp_supports_text()),
        ],
{
}

/// The flush rule: a data chunk is written out verbatim, and flushed at
/// once exactly when its last byte is not a carriage return.
pub proof fn lemma_data_flush(bytes: Seq<u8>)
    requires
        bytes.len() > 0,
    ensures
        react_ops(EventModel::Data(bytes)) == seq![
            OpModel::EmitOutput { bytes, flush: bytes.last() != CARRIAGE_RETURN },
        ],
{
}

/// The shutdown rule: a protocol error event, and only a protocol error
/// event, ends the session, and its whole effect is reporting the
/// message — a clean exit, not a failure.
pub proof fn lemma_error_stops(e: EventModel)
    ensures
        react_stops(e) <==> e is ProtocolError,
        e matches EventModel::ProtocolError(message) ==> react_ops(e) == seq![
            OpModel::ShowError(message),
        ],
{
}

} // verus!
