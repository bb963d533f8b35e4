//! The portal's side of the compositor protocol: what is asked, and what is
//! made of each answer.

use vstd::prelude::*;
use vstd::string::*;

use crate::codec::message_type;
use crate::schema::{ConfirmPickResult, ConnectionCapabilities, Event, LeaseGrant, LeaseRequest, PickResult, Rect, Request, Response, StreamPixelFormat, MIN_PROTOCOL_VERSION, PROTOCOL_VERSION};
use crate::text::{decimal_text, same_text};

verus! {

/// Why an exchange failed.
pub enum ClientError {
    /// The compositor speaks a version that cannot be negotiated.
    Unsupported(String),
    /// The compositor refused the handshake.
    Refused(String),
    /// The compositor refused the request.
    Failed(String),
    /// A message is not what the protocol allows.
    Invalid(String),
    /// The compositor gave another answer than the one expected.
    Unexpected { expected: &'static str, response: Response },
}

/// A stream that was started.
#[derive(Debug, Clone, PartialEq, Eq)]
pub struct StreamStarted {
    pub stream_id: u64,
    pub width: u32,
    pub height: u32,
    pub format: StreamPixelFormat,
}

/// An established connection: what was negotiated.
#[derive(Debug, Clone, PartialEq, Eq)]
pub struct Client {
    pub version: u32,
    pub caps: ConnectionCapabilities,
    pub lease: Option<LeaseGrant>,
}

/// A version lies in the range that can be negotiated.
pub open spec fn negotiable(version: u32) -> bool {
    MIN_PROTOCOL_VERSION <= version <= PROTOCOL_VERSION
}

/// Why a version is refused.
pub open spec fn version_problem(version: u32) -> Seq<char> {
    "Aegis IPC protocol mismatch: server replied "@ + crate::text::decimal(version as nat)
        + ", Portal requires "@ + crate::text::decimal(PROTOCOL_VERSION as nat)
}

/// The error for an answer that reports failure, or is not the one expected.
pub open spec fn answer_error(expected: Seq<char>, response: Response, error: ClientError) -> bool {
    match response {
        Response::Error { message } => error matches ClientError::Failed(m) && m@ == message@,
        _ => error matches ClientError::Unexpected { expected: e, response: r } && e@ == expected
            && r == response,
    }
}

fn refuse(expected: &'static str, response: Response) -> (error: ClientError)
    ensures
        answer_error(expected@, response, error),
{
    match response {
        Response::Error { message } => ClientError::Failed(message),
        other => ClientError::Unexpected { expected, response: other },
    }
}

/// The handshake request: the newest version, and a lease when more than
/// asking is wanted.
pub fn hello(requested: ConnectionCapabilities, scope: Option<String>) -> (request: Request)
    ensures
        request matches Request::Hello { version, caps, scope: s, lease } && version
            == PROTOCOL_VERSION && caps == requested && s == scope && (lease is Some) == (
        requested.control || requested.input || requested.session || requested.interaction_domain)
            && (lease matches Some(l) ==> l.ttl_ms == 900_000),
{
    let lease: Option<LeaseRequest> = if requested.privileged() {
        Some(LeaseRequest::default())
    } else {
        None
    };
    Request::Hello { version: PROTOCOL_VERSION, caps: requested, scope, lease }
}

impl Client {
    /// Takes the answer to the handshake. Any version from the oldest that
    /// can be negotiated to the newest is accepted.
    pub fn establish(response: Response) -> (r: Result<Client, ClientError>)
        ensures
            match response {
                Response::Hello { version, caps, lease } => if negotiable(version) {
                    r matches Ok(client) && client.version == version && client.caps == caps
                        && client.lease == lease
                } else {
                    r matches Err(ClientError::Unsupported(m)) && m@ == version_problem(version)
                },
                Response::Error { message } => r matches Err(ClientError::Refused(m)) && m@
                    == message@,
                _ => r matches Err(ClientError::Unexpected { expected, response: other })
                    && expected@ == "Hello"@ && other == response,
            },
    {
        match response {
            Response::Hello { version, caps, lease } => {
                if version >= MIN_PROTOCOL_VERSION && version <= PROTOCOL_VERSION {
                    return Ok(Client { version, caps, lease });
                }
                let mut m = "Aegis IPC protocol mismatch: server replied ".to_owned();
                m.append(decimal_text(version as u64).as_str());
                m.append(", Portal requires ");
                m.append(decimal_text(PROTOCOL_VERSION as u64).as_str());
                Err(ClientError::Unsupported(m))
            },
            Response::Error { message } => Err(ClientError::Refused(message)),
            other => Err(ClientError::Unexpected { expected: "Hello", response: other }),
        }
    }

    /// What the connection may do.
    pub fn caps(&self) -> (caps: ConnectionCapabilities)
        ensures
            caps == self.caps,
    {
        self.caps
    }

    /// The lease that the connection holds, if any.
    pub fn lease(&self) -> (lease: Option<LeaseGrant>)
        ensures
            lease == self.lease,
    {
        self.lease
    }

    /// Takes the answer to a lease renewal, and keeps the new lease.
    pub fn renew_lease(&mut self, response: Response) -> (r: Result<LeaseGrant, ClientError>)
        ensures
            final(self).version == old(self).version,
            final(self).caps == old(self).caps,
            match response {
                Response::LeaseRenewed { lease } => r == Ok::<LeaseGrant, ClientError>(lease)
                    && final(self).lease == Some(lease),
                _ => r is Err && answer_error("LeaseRenewed"@, response, r->Err_0)
                    && final(self).lease == old(self).lease,
            },
    {
        match response {
            Response::LeaseRenewed { lease } => {
                self.lease = Some(lease);
                Ok(lease)
            },
            other => Err(refuse("LeaseRenewed", other)),
        }
    }
}

impl Client {
    /// Takes the answer to a settings request.
    pub fn settings(&self, response: Response) -> (r: Result<(), ClientError>)
        ensures
            match response {
                Response::Settings => r is Ok,
                _ => r is Err && answer_error("Settings"@, response, r->Err_0),
            },
    {
        match response {
            Response::Settings => Ok(()),
            other => Err(refuse("Settings", other)),
        }
    }

    /// Takes the answer to a subscription.
    pub fn subscribe(&self, response: Response) -> (r: Result<(), ClientError>)
        ensures
            match response {
                Response::Subscribed => r is Ok,
                _ => r is Err && answer_error("Subscribed"@, response, r->Err_0),
            },
    {
        match response {
            Response::Subscribed => Ok(()),
            other => Err(refuse("Subscribed", other)),
        }
    }

    /// Takes the answer to a capture: its extent and the length of the pixel
    /// payload that follows.
    pub fn capture_output(&self, response: Response) -> (r: Result<(u32, u32, u64), ClientError>)
        ensures
            match response {
                Response::CaptureOutput { width, height, png_bytes } => r == Ok::<
                    (u32, u32, u64),
                    ClientError,
                >((width, height, png_bytes)),
                _ => r is Err && answer_error("CaptureOutput"@, response, r->Err_0),
            },
    {
        match response {
            Response::CaptureOutput { width, height, png_bytes } => Ok((width, height, png_bytes)),
            other => Err(refuse("CaptureOutput", other)),
        }
    }

    /// Takes the answer to a pick.
    pub fn pick_target(&self, response: Response) -> (r: Result<PickResult, ClientError>)
        ensures
            match response {
                Response::Picked { result } => r == Ok::<PickResult, ClientError>(result),
                _ => r is Err && answer_error("Picked"@, response, r->Err_0),
            },
    {
        match response {
            Response::Picked { result } => Ok(result),
            other => Err(refuse("Picked", other)),
        }
    }

    /// Takes the answer to a confirmation.
    pub fn pick_confirm(&self, response: Response) -> (r: Result<ConfirmPickResult, ClientError>)
        ensures
            match response {
                Response::ConfirmPicked { result } => r == Ok::<ConfirmPickResult, ClientError>(result),
                _ => r is Err && answer_error("ConfirmPicked"@, response, r->Err_0),
            },
    {
        match response {
            Response::ConfirmPicked { result } => Ok(result),
            other => Err(refuse("ConfirmPicked", other)),
        }
    }

    /// Takes the answer to a stream start.
    pub fn start_output_stream_target(&self, response: Response) -> (r: Result<StreamStarted, ClientError>)
        ensures
            match response {
                Response::StreamOutputStarted { stream_id, width, height, format, .. } => r == Ok::<
                    StreamStarted,
                    ClientError,
                >(StreamStarted { stream_id, width, height, format }),
                _ => r is Err && answer_error("StreamOutputStarted"@, response, r->Err_0),
            },
    {
        match response {
            Response::StreamOutputStarted { stream_id, width, height, format, .. } => Ok(
                StreamStarted { stream_id, width, height, format },
            ),
            other => Err(refuse("StreamOutputStarted", other)),
        }
    }

    /// Takes the answer to a stream stop, which must name the same stream.
    pub fn stop_output_stream(&self, stream_id: u64, response: Response) -> (r: Result<(), ClientError>)
        ensures
            if response == (Response::StreamOutputStopped { stream_id }) {
                r is Ok
            } else {
                r is Err && answer_error("StreamOutputStopped"@, response, r->Err_0)
            },
    {
        let stopped: bool = match &response {
            Response::StreamOutputStopped { stream_id: stopped } => *stopped == stream_id,
            _ => false,
        };
        if stopped {
            return Ok(());
        }
        Err(refuse("StreamOutputStopped", response))
    }
}

// ---------------------------------------------------------------------------
// Messages that arrive on their own
// ---------------------------------------------------------------------------

/// What to make of a message on a subscribed connection.
#[derive(Debug, Clone, Copy, PartialEq, Eq, Structural)]
pub enum EventKind {
    SettingsChanged,
    Other,
    Untyped,
}

/// What the announced type of an event means.
pub open spec fn event_kind_of(announced: Option<Seq<char>>) -> EventKind {
    match announced {
        Some(t) => if t == "SettingsChanged"@ {
            EventKind::SettingsChanged
        } else {
            EventKind::Other
        },
        None => EventKind::Untyped,
    }
}

/// The view of an optional text.
pub open spec fn text_view(s: Option<&str>) -> Option<Seq<char>> {
    match s {
        Some(s) => Some(s@),
        None => None,
    }
}

/// What the announced type of an event means: settings changes are read,
/// other events skipped.
pub fn event_kind(announced: Option<&str>) -> (kind: EventKind)
    ensures
        kind == event_kind_of(text_view(announced)),
{
    match announced {
        Some(t) => if same_text(t, "SettingsChanged") {
            EventKind::SettingsChanged
        } else {
            EventKind::Other
        },
        None => EventKind::Untyped,
    }
}

impl Client {
    /// What to make of the bytes of an event. Bytes that are no JSON, and
    /// messages without a type, are errors.
    pub fn next_event(&self, bytes: &[u8]) -> (r: Result<EventKind, ClientError>)
        ensures
            match crate::codec::json_text_field(bytes@, "type"@) {
                Ok(announced) => if announced is None {
                    r matches Err(ClientError::Invalid(m)) && m@ == "Aegis IPC event has no type"@
                } else {
                    r == Ok::<EventKind, ClientError>(event_kind_of(announced))
                },
                Err(error) => r matches Err(ClientError::Invalid(m)) && m@ == error,
            },
    {
        match message_type(bytes) {
            Err(error) => Err(ClientError::Invalid(error)),
            Ok(None) => Err(ClientError::Invalid("Aegis IPC event has no type".to_owned())),
            Ok(Some(t)) => Ok(event_kind(Some(t.as_str()))),
        }
    }
}

/// What to make of a message on a streaming connection.
#[derive(Debug, Clone, Copy, PartialEq, Eq, Structural)]
pub enum StreamKind {
    Frame,
    Ended,
    LeaseRenewed,
    Error,
    /// A message that does not concern the stream.
    Skip,
    Untyped,
}

/// What the announced type of a stream message means.
pub open spec fn stream_kind_of(announced: Option<Seq<char>>) -> StreamKind {
    match announced {
        Some(t) => if t == "StreamFrame"@ {
            StreamKind::Frame
        } else if t == "StreamEnded"@ {
            StreamKind::Ended
        } else if t == "LeaseRenewed"@ {
            StreamKind::LeaseRenewed
        } else if t == "Error"@ {
            StreamKind::Error
        } else {
            StreamKind::Skip
        },
        None => StreamKind::Untyped,
    }
}

/// What the announced type of a stream message means.
pub fn stream_kind(announced: Option<&str>) -> (kind: StreamKind)
    ensures
        kind == stream_kind_of(text_view(announced)),
{
    match announced {
        Some(t) => if same_text(t, "StreamFrame") {
            StreamKind::Frame
        } else if same_text(t, "StreamEnded") {
            StreamKind::Ended
        } else if same_text(t, "LeaseRenewed") {
            StreamKind::LeaseRenewed
        } else if same_text(t, "Error") {
            StreamKind::Error
        } else {
            StreamKind::Skip
        },
        None => StreamKind::Untyped,
    }
}

/// What to make of the bytes of a stream message. Bytes that are no JSON, and
/// messages without a type, are errors.
pub fn classify_stream_message(bytes: &[u8]) -> (r: Result<StreamKind, ClientError>)
    ensures
        match crate::codec::json_text_field(bytes@, "type"@) {
            Ok(announced) => if announced is None {
                r matches Err(ClientError::Invalid(m)) && m@
                    == "Aegis IPC stream message has no type"@
            } else {
                r == Ok::<StreamKind, ClientError>(stream_kind_of(announced))
            },
            Err(error) => r matches Err(ClientError::Invalid(m)) && m@ == error,
        },
{
    match message_type(bytes) {
        Err(error) => Err(ClientError::Invalid(error)),
        Ok(None) => Err(
            ClientError::Invalid("Aegis IPC stream message has no type".to_owned()),
        ),
        Ok(Some(t)) => Ok(stream_kind(Some(t.as_str()))),
    }
}

/// Where the pixels of a frame are.
#[derive(Debug, Clone, Copy, PartialEq, Eq, Structural)]
pub enum StreamPayload {
    /// In a sealed memory file, whose descriptor follows.
    Memfd,
    /// In a single-plane GPU buffer, whose descriptor follows.
    Dmabuf,
    /// In a slot that is already shared; no descriptor follows.
    Slot(u32),
}

/// Where the pixels of a frame of this format are.
pub open spec fn payload_kind_of(format: StreamPixelFormat, slot: Option<u32>) -> StreamPayload {
    match slot {
        Some(slot) => StreamPayload::Slot(slot),
        None => match format {
            StreamPixelFormat::Bgra8 | StreamPixelFormat::Rgba8 => StreamPayload::Memfd,
            StreamPixelFormat::Dmabuf { .. } => StreamPayload::Dmabuf,
        },
    }
}

/// A frame whose payload is still to be received.
pub struct StreamFrame {
    pub stream_id: u64,
    pub sequence: u64,
    pub width: u32,
    pub height: u32,
    pub stride: u32,
    pub format: StreamPixelFormat,
    pub damage: Vec<Rect>,
    pub dropped: u64,
    pub payload: StreamPayload,
    pub byte_len: u64,
}

/// A decoded message of a streaming connection.
pub enum StreamInput {
    Event(Event),
    Response(Response),
}

/// What a stream message comes to.
pub enum StreamMessage {
    /// Receive the payload, then hand the frame on.
    Frame(StreamFrame),
    Ended { stream_id: u64, reason: String },
    LeaseRenewed,
    /// Wait for the next message.
    Skip,
}

/// What a decoded message comes to, and what it does to the lease.
pub open spec fn stream_step_for(
    input: StreamInput,
    lease: Option<LeaseGrant>,
    result: Result<StreamMessage, ClientError>,
    lease_after: Option<LeaseGrant>,
) -> bool {
    match input {
        StreamInput::Event(
            Event::StreamFrame {
                stream_id,
                sequence,
                width,
                height,
                stride,
                format,
                damage,
                dropped,
                byte_len,
                slot,
            },
        ) => lease_after == lease && result == Ok::<StreamMessage, ClientError>(
            StreamMessage::Frame(
                StreamFrame {
                    stream_id,
                    sequence,
                    width,
                    height,
                    stride,
                    format,
                    damage,
                    dropped,
                    payload: payload_kind_of(format, slot),
                    byte_len,
                },
            ),
        ),
        StreamInput::Event(Event::StreamEnded { stream_id, reason }) => lease_after == lease
            && result == Ok::<StreamMessage, ClientError>(StreamMessage::Ended { stream_id, reason }),
        StreamInput::Response(Response::LeaseRenewed { lease: renewed }) => lease_after == Some(
            renewed,
        ) && result == Ok::<StreamMessage, ClientError>(StreamMessage::LeaseRenewed),
        StreamInput::Response(Response::Error { message }) => lease_after == lease
            && result == Err::<StreamMessage, ClientError>(ClientError::Failed(message)),
        _ => lease_after == lease && result == Ok::<StreamMessage, ClientError>(StreamMessage::Skip),
    }
}

impl Client {
    /// Takes the next message of a stream: a frame names the payload to
    /// receive, a renewed lease is kept, a reported failure is an error, and
    /// messages that do not concern the stream are skipped.
    pub fn next_stream_message(&mut self, input: StreamInput) -> (r: Result<StreamMessage, ClientError>)
        ensures
            stream_step_for(input, old(self).lease, r, final(self).lease),
            final(self).version == old(self).version,
            final(self).caps == old(self).caps,
    {
        match input {
            StreamInput::Event(
                Event::StreamFrame {
                    stream_id,
                    sequence,
                    width,
                    height,
                    stride,
                    format,
                    damage,
                    dropped,
                    byte_len,
                    slot,
                },
            ) => {
                let payload: StreamPayload = match slot {
                    Some(slot) => StreamPayload::Slot(slot),
                    None => match format {
                        StreamPixelFormat::Bgra8 | StreamPixelFormat::Rgba8 => StreamPayload::Memfd,
                        StreamPixelFormat::Dmabuf { .. } => StreamPayload::Dmabuf,
                    },
                };
                Ok(
                    StreamMessage::Frame(
                        StreamFrame {
                            stream_id,
                            sequence,
                            width,
                            height,
                            stride,
                            format,
                            damage,
                            dropped,
                            payload,
                            byte_len,
                        },
                    ),
                )
            },
            StreamInput::Event(Event::StreamEnded { stream_id, reason }) => Ok(
                StreamMessage::Ended { stream_id, reason },
            ),
            StreamInput::Response(Response::LeaseRenewed { lease }) => {
                self.lease = Some(lease);
                Ok(StreamMessage::LeaseRenewed)
            },
            StreamInput::Response(Response::Error { message }) => Err(ClientError::Failed(message)),
            _ => Ok(StreamMessage::Skip),
        }
    }
}

} // verus!
