//! One connection from its first byte to its end, as a state machine, on the
//! receiving and on the sending side.
//!
//! The receiving side goes from `AwaitHeaderLength` to `AwaitHeader` and from
//! there to `InfoOnly` or to `NegotiateTransfer`, the decision, and the
//! transfer. The caller does what a [`Directive`] says and reports what came of
//! it as a [`SessionEvent`]. Only one directive lets the caller change anything
//! on disk or in the history, and it is given only for a decision list that
//! names a file.
//!
//! The sending side connects, offers, awaits the acknowledgment, decides, and
//! streams; it streams only to a receiver that said it is ready.

use vstd::prelude::*;

verus! {

/// Where a connection stands.
#[derive(Clone, Copy, Debug, PartialEq, Eq, Structural)]
pub enum SessionPhase {
    /// The length of the header is awaited.
    AwaitHeaderLength,
    /// The header of this many bytes is awaited.
    AwaitHeader { length: u32 },
    /// The sender asked who the receiver is; the answer is being sent.
    InfoOnly,
    /// The header was read; duplicates are looked for and the acknowledgment is
    /// being sent.
    NegotiateTransfer,
    /// The length of the decision list is awaited.
    AwaitDecisionLength,
    /// The decision list of this many bytes is awaited.
    AwaitDecision { length: u32 },
    /// The files are being received.
    Receiving,
    /// The connection is over.
    Closed,
}

/// What the caller reports.
#[derive(Clone, Copy, Debug, PartialEq, Eq, Structural)]
pub enum SessionEvent {
    /// A length prefix was read; this is the length it spells.
    LengthRead(u32),
    /// The payload of the header was read; whether it is a header.
    HeaderRead { well_formed: bool },
    /// The answer to the info probe was sent.
    ReplySent,
    /// The acknowledgment was sent.
    AckSent,
    /// The payload of the decision list was read; whether it is a list of
    /// names, and how many names it holds.
    DecisionRead { well_formed: bool, names: usize },
    /// The transfer is over, finished or given up.
    TransferOver,
    /// Reading or writing failed.
    Failed,
}

/// How a connection ended.
#[derive(Clone, Copy, Debug, PartialEq, Eq, Structural)]
pub enum SessionEnd {
    /// The sender asked who the receiver is and was answered.
    ProbeAnswered,
    /// The sender asked for duplicates only: its decision list was empty.
    DuplicatesChecked,
    /// Files were transferred, all of them or some.
    TransferEnded,
    /// A message was malformed or out of turn.
    ProtocolViolated,
    /// Reading or writing failed.
    ConnectionLost,
}

/// What the caller does next.
#[derive(Clone, Copy, Debug, PartialEq, Eq, Structural)]
pub enum Directive {
    /// Read a length prefix.
    ReadLength,
    /// Read a payload of this many bytes.
    ReadPayload { length: u32 },
    /// Send the receiver's name and role.
    AnswerProbe,
    /// Look for a folder to resume into and for duplicates, and send the
    /// acknowledgment. Nothing is created or changed.
    Negotiate,
    /// Make the working folder, announce the transfer, and receive the files.
    BeginTransfer,
    /// Close the connection.
    Close { end: SessionEnd },
}

impl Directive {
    /// Whether the directive lets the caller create a folder, write a file or
    /// keep a record.
    pub open spec fn may_change_disk(self) -> bool {
        self == Directive::BeginTransfer
    }
}

/// The phase and the directive after an event.
pub open spec fn session_stepped(phase: SessionPhase, event: SessionEvent) -> (
    SessionPhase,
    Directive,
) {
    match (phase, event) {
        (SessionPhase::Closed, _) => (
            SessionPhase::Closed,
            Directive::Close { end: SessionEnd::ProtocolViolated },
        ),
        (_, SessionEvent::Failed) => (
            SessionPhase::Closed,
            Directive::Close { end: SessionEnd::ConnectionLost },
        ),
        (SessionPhase::AwaitHeaderLength, SessionEvent::LengthRead(length)) => if length == 0 {
            (SessionPhase::InfoOnly, Directive::AnswerProbe)
        } else {
            (SessionPhase::AwaitHeader { length }, Directive::ReadPayload { length })
        },
        (SessionPhase::AwaitHeader { length }, SessionEvent::HeaderRead { well_formed }) => if well_formed {
            (SessionPhase::NegotiateTransfer, Directive::Negotiate)
        } else {
            (SessionPhase::Closed, Directive::Close { end: SessionEnd::ProtocolViolated })
        },
        (SessionPhase::InfoOnly, SessionEvent::ReplySent) => (
            SessionPhase::Closed,
            Directive::Close { end: SessionEnd::ProbeAnswered },
        ),
        (SessionPhase::NegotiateTransfer, SessionEvent::AckSent) => (
            SessionPhase::AwaitDecisionLength,
            Directive::ReadLength,
        ),
        (SessionPhase::AwaitDecisionLength, SessionEvent::LengthRead(length)) => (
            SessionPhase::AwaitDecision { length },
            Directive::ReadPayload { length },
        ),
        (
            SessionPhase::AwaitDecision { length },
            SessionEvent::DecisionRead { well_formed, names },
        ) => if !well_formed {
            (SessionPhase::Closed, Directive::Close { end: SessionEnd::ProtocolViolated })
        } else if names == 0 {
            (SessionPhase::Closed, Directive::Close { end: SessionEnd::DuplicatesChecked })
        } else {
            (SessionPhase::Receiving, Directive::BeginTransfer)
        },
        (SessionPhase::Receiving, SessionEvent::TransferOver) => (
            SessionPhase::Closed,
            Directive::Close { end: SessionEnd::TransferEnded },
        ),
        _ => (SessionPhase::Closed, Directive::Close { end: SessionEnd::ProtocolViolated }),
    }
}

/// The phase in which a connection begins, and what to do first.
pub fn session_start() -> (r: (SessionPhase, Directive))
    ensures
        r == (SessionPhase::AwaitHeaderLength, Directive::ReadLength),
{
    (SessionPhase::AwaitHeaderLength, Directive::ReadLength)
}

/// Takes what the caller reports, and says where the connection stands then
/// and what to do next; see [`session_stepped`].
pub fn session_step(phase: SessionPhase, event: SessionEvent) -> (r: (SessionPhase, Directive))
    ensures
        r == session_stepped(phase, event),
{
    let closed = SessionPhase::Closed;
    let violated = Directive::Close { end: SessionEnd::ProtocolViolated };
    match phase {
        SessionPhase::Closed => (closed, violated),
        _ => match event {
            SessionEvent::Failed => (closed, Directive::Close { end: SessionEnd::ConnectionLost }),
            _ => match phase {
                SessionPhase::AwaitHeaderLength => match event {
                    SessionEvent::LengthRead(length) => {
                        if length == 0 {
                            (SessionPhase::InfoOnly, Directive::AnswerProbe)
                        } else {
                            (SessionPhase::AwaitHeader { length }, Directive::ReadPayload { length })
                        }
                    },
                    _ => (closed, violated),
                },
                SessionPhase::AwaitHeader { length } => match event {
                    SessionEvent::HeaderRead { well_formed } => {
                        if well_formed {
                            (SessionPhase::NegotiateTransfer, Directive::Negotiate)
                        } else {
                            (closed, violated)
                        }
                    },
                    _ => (closed, violated),
                },
                SessionPhase::InfoOnly => match event {
                    SessionEvent::ReplySent => (
                        closed,
                        Directive::Close { end: SessionEnd::ProbeAnswered },
                    ),
                    _ => (closed, violated),
                },
                SessionPhase::NegotiateTransfer => match event {
                    SessionEvent::AckSent => (
                        SessionPhase::AwaitDecisionLength,
                        Directive::ReadLength,
                    ),
                    _ => (closed, violated),
                },
                SessionPhase::AwaitDecisionLength => match event {
                    SessionEvent::LengthRead(length) => (
                        SessionPhase::AwaitDecision { length },
                        Directive::ReadPayload { length },
                    ),
                    _ => (closed, violated),
                },
                SessionPhase::AwaitDecision { length } => match event {
                    SessionEvent::DecisionRead { well_formed, names } => {
                        if !well_formed {
                            (closed, violated)
                        } else if names == 0 {
                            (closed, Directive::Close { end: SessionEnd::DuplicatesChecked })
                        } else {
                            (SessionPhase::Receiving, Directive::BeginTransfer)
                        }
                    },
                    _ => (closed, violated),
                },
                SessionPhase::Receiving => match event {
                    SessionEvent::TransferOver => (
                        closed,
                        Directive::Close { end: SessionEnd::TransferEnded },
                    ),
                    _ => (closed, violated),
                },
                SessionPhase::Closed => (closed, violated),
            },
        },
    }
}

/// The phases of a connection after each of the events, from its beginning.
pub open spec fn phase_after(events: Seq<SessionEvent>) -> SessionPhase
    decreases events.len(),
{
    if events.len() == 0 {
        SessionPhase::AwaitHeaderLength
    } else {
        session_stepped(phase_after(events.drop_last()), events.last()).0
    }
}

/// The directive given after the last of the events; the first directive where
/// there is no event yet.
pub open spec fn directive_after(events: Seq<SessionEvent>) -> Directive {
    if events.len() == 0 {
        Directive::ReadLength
    } else {
        session_stepped(phase_after(events.drop_last()), events.last()).1
    }
}

/// The caller is let to change something on disk only when a decision list
/// that names a file has just been read.
pub proof fn lemma_change_needs_decision(phase: SessionPhase, event: SessionEvent)
    requires
        session_stepped(phase, event).1.may_change_disk(),
    ensures
        phase is AwaitDecision,
        event matches SessionEvent::DecisionRead { well_formed, names } && well_formed && names > 0,
        session_stepped(phase, event).0 == SessionPhase::Receiving,
{
}

/// An empty decision list closes the connection, and nothing that is reported
/// afterwards lets the caller change anything: no folder is made, no file
/// written, no record kept.
pub proof fn lemma_empty_decision_changes_nothing(length: u32, later: SessionEvent)
    ensures
        session_stepped(
            SessionPhase::AwaitDecision { length },
            SessionEvent::DecisionRead { well_formed: true, names: 0 },
        ) == (SessionPhase::Closed, Directive::Close { end: SessionEnd::DuplicatesChecked }),
        !session_stepped(SessionPhase::Closed, later).1.may_change_disk(),
        session_stepped(SessionPhase::Closed, later).0 == SessionPhase::Closed,
{
}

/// Whatever is reported on a connection, the caller is never let to change
/// anything on disk before the sender has sent a decision list that names a
/// file; in particular never for a probe, and never for an empty list.
pub proof fn lemma_no_change_without_decision(events: Seq<SessionEvent>)
    requires
        forall|i: int|
            0 <= i < events.len() ==> !(#[trigger] events[i] matches SessionEvent::DecisionRead {
                well_formed,
                names,
            } && well_formed && names > 0),
    ensures
        forall|n: int|
            0 <= n <= events.len() ==> !(#[trigger] directive_after(
                events.take(n),
            )).may_change_disk(),
        phase_after(events) != SessionPhase::Receiving,
    decreases events.len(),
{
    if events.len() > 0 {
        let shorter = events.drop_last();
        assert forall|i: int| 0 <= i < shorter.len() implies !(#[trigger] shorter[i] matches SessionEvent::DecisionRead {
            well_formed,
            names,
        } && well_formed && names > 0) by {
            assert(shorter[i] == events[i]);
        }
        lemma_no_change_without_decision(shorter);
        assert forall|n: int| 0 <= n <= events.len() implies !(#[trigger] directive_after(
            events.take(n),
        )).may_change_disk() by {
            if n < events.len() {
                assert(events.take(n) =~= shorter.take(n));
            } else {
                assert(events.take(n) =~= events);
                let last = events[events.len() - 1];
                assert(events.last() == last);
            }
        }
    } else {
        assert forall|n: int| 0 <= n <= events.len() implies !(#[trigger] directive_after(
            events.take(n),
        )).may_change_disk() by {
            assert(events.take(n).len() == 0);
        }
    }
}

/// Where a connection stands on the sending side.
#[derive(Clone, Copy, Debug, PartialEq, Eq, Structural)]
pub enum SenderPhase {
    /// The connection is being made.
    Connecting,
    /// The header is being sent.
    Offering,
    /// The length of the acknowledgment is awaited.
    AwaitAckLength,
    /// The acknowledgment of this many bytes is awaited.
    AwaitAck { length: u32 },
    /// The decision list is being sent.
    Deciding,
    /// The files are being streamed.
    Streaming,
    /// The connection is over.
    Closed,
}

/// What the caller reports on the sending side.
#[derive(Clone, Copy, Debug, PartialEq, Eq, Structural)]
pub enum SenderEvent {
    /// The connection was made.
    Connected,
    /// The header was sent.
    HeaderSent,
    /// A length prefix was read; this is the length it spells.
    LengthRead(u32),
    /// The payload of the acknowledgment was read; whether it is an
    /// acknowledgment, and whether it says that the receiver is ready.
    AckRead { well_formed: bool, ready: bool },
    /// The decision list was sent.
    DecisionSent,
    /// The streaming is over, finished or given up.
    StreamOver,
    /// Connecting, reading or writing failed.
    Failed,
}

/// How a connection ended on the sending side.
#[derive(Clone, Copy, Debug, PartialEq, Eq, Structural)]
pub enum SenderEnd {
    /// The sender asked for duplicates only and has its answer.
    Probed,
    /// Files were streamed, all of them or some.
    Streamed,
    /// The receiver is not ready; its status is reported as it is.
    NotReady,
    /// A message was malformed or out of turn.
    ProtocolViolated,
    /// Connecting, reading or writing failed.
    ConnectionLost,
}

/// What the caller does next on the sending side.
#[derive(Clone, Copy, Debug, PartialEq, Eq, Structural)]
pub enum SenderDirective {
    /// Connect to the receiver, within the time allowed.
    Connect,
    /// Send the header.
    SendHeader,
    /// Read a length prefix.
    ReadLength,
    /// Read a payload of this many bytes.
    ReadPayload { length: u32 },
    /// Send the decision list: empty for a probe.
    SendDecision,
    /// Stream the files that the decision list names.
    StreamFiles,
    /// Close the connection.
    Close { end: SenderEnd },
}

/// The phase and the directive after an event on the sending side. `probe` says
/// whether the sender only asks for duplicates.
pub open spec fn sender_stepped(phase: SenderPhase, event: SenderEvent, probe: bool) -> (
    SenderPhase,
    SenderDirective,
) {
    match (phase, event) {
        (SenderPhase::Closed, _) => (
            SenderPhase::Closed,
            SenderDirective::Close { end: SenderEnd::ProtocolViolated },
        ),
        (_, SenderEvent::Failed) => (
            SenderPhase::Closed,
            SenderDirective::Close { end: SenderEnd::ConnectionLost },
        ),
        (SenderPhase::Connecting, SenderEvent::Connected) => (
            SenderPhase::Offering,
            SenderDirective::SendHeader,
        ),
        (SenderPhase::Offering, SenderEvent::HeaderSent) => (
            SenderPhase::AwaitAckLength,
            SenderDirective::ReadLength,
        ),
        (SenderPhase::AwaitAckLength, SenderEvent::LengthRead(length)) => (
            SenderPhase::AwaitAck { length },
            SenderDirective::ReadPayload { length },
        ),
        (SenderPhase::AwaitAck { length }, SenderEvent::AckRead { well_formed, ready }) => if !well_formed {
            (SenderPhase::Closed, SenderDirective::Close { end: SenderEnd::ProtocolViolated })
        } else if !ready {
            (SenderPhase::Closed, SenderDirective::Close { end: SenderEnd::NotReady })
        } else {
            (SenderPhase::Deciding, SenderDirective::SendDecision)
        },
        (SenderPhase::Deciding, SenderEvent::DecisionSent) => if probe {
            (SenderPhase::Closed, SenderDirective::Close { end: SenderEnd::Probed })
        } else {
            (SenderPhase::Streaming, SenderDirective::StreamFiles)
        },
        (SenderPhase::Streaming, SenderEvent::StreamOver) => (
            SenderPhase::Closed,
            SenderDirective::Close { end: SenderEnd::Streamed },
        ),
        _ => (SenderPhase::Closed, SenderDirective::Close { end: SenderEnd::ProtocolViolated }),
    }
}

/// The phase in which a sender begins, and what to do first.
pub fn sender_start() -> (r: (SenderPhase, SenderDirective))
    ensures
        r == (SenderPhase::Connecting, SenderDirective::Connect),
{
    (SenderPhase::Connecting, SenderDirective::Connect)
}

/// Takes what the caller reports on the sending side, and says where the
/// connection stands then and what to do next; see [`sender_stepped`].
pub fn sender_step(phase: SenderPhase, event: SenderEvent, probe: bool) -> (r: (
    SenderPhase,
    SenderDirective,
))
    ensures
        r == sender_stepped(phase, event, probe),
{
    let closed = SenderPhase::Closed;
    let violated = SenderDirective::Close { end: SenderEnd::ProtocolViolated };
    match phase {
        SenderPhase::Closed => (closed, violated),
        _ => match event {
            SenderEvent::Failed => (
                closed,
                SenderDirective::Close { end: SenderEnd::ConnectionLost },
            ),
            _ => match phase {
                SenderPhase::Connecting => match event {
                    SenderEvent::Connected => (SenderPhase::Offering, SenderDirective::SendHeader),
                    _ => (closed, violated),
                },
                SenderPhase::Offering => match event {
                    SenderEvent::HeaderSent => (
                        SenderPhase::AwaitAckLength,
                        SenderDirective::ReadLength,
                    ),
                    _ => (closed, violated),
                },
                SenderPhase::AwaitAckLength => match event {
                    SenderEvent::LengthRead(length) => (
                        SenderPhase::AwaitAck { length },
                        SenderDirective::ReadPayload { length },
                    ),
                    _ => (closed, violated),
                },
                SenderPhase::AwaitAck { length } => match event {
                    SenderEvent::AckRead { well_formed, ready } => {
                        if !well_formed {
                            (closed, violated)
                        } else if !ready {
                            (closed, SenderDirective::Close { end: SenderEnd::NotReady })
                        } else {
                            (SenderPhase::Deciding, SenderDirective::SendDecision)
                        }
                    },
                    _ => (closed, violated),
                },
                SenderPhase::Deciding => match event {
                    SenderEvent::DecisionSent => {
                        if probe {
                            (closed, SenderDirective::Close { end: SenderEnd::Probed })
                        } else {
                            (SenderPhase::Streaming, SenderDirective::StreamFiles)
                        }
                    },
                    _ => (closed, violated),
                },
                SenderPhase::Streaming => match event {
                    SenderEvent::StreamOver => (
                        closed,
                        SenderDirective::Close { end: SenderEnd::Streamed },
                    ),
                    _ => (closed, violated),
                },
                SenderPhase::Closed => (closed, violated),
            },
        },
    }
}

/// Files are streamed only after the decision list was sent, the decision list
/// is sent only to a receiver that said it is ready, and a probe streams
/// nothing.
pub proof fn lemma_stream_needs_ready(phase: SenderPhase, event: SenderEvent, probe: bool)
    ensures
        sender_stepped(phase, event, probe).1 == SenderDirective::StreamFiles ==> phase
            == SenderPhase::Deciding && event == SenderEvent::DecisionSent && !probe,
        sender_stepped(phase, event, probe).1 == SenderDirective::SendDecision ==> phase
            is AwaitAck && event == (SenderEvent::AckRead { well_formed: true, ready: true }),
        phase is AwaitAck ==> sender_stepped(
            phase,
            SenderEvent::AckRead { well_formed: true, ready: false },
            probe,
        ) == (SenderPhase::Closed, SenderDirective::Close { end: SenderEnd::NotReady }),
{
}

} // verus!
