//! Laws of the connection to the compositor.

#![allow(unused_imports)]

use vstd::prelude::*;

use crate::blob::{check_file, descriptor_arrived, validate_len};
use crate::client::{
    classify_stream_message, hello, Client, ClientError, EventKind, StreamInput, StreamKind,
    StreamMessage, StreamPayload,
};
use crate::codec::{frame, frame_length};
use crate::lease::{Link, LinkAction, LinkEvent};
use crate::schema::{
    ConnectionCapabilities, Event, LeaseGrant, Request, Response, StreamPixelFormat,
};

verus! {

/// A frame is the length of its payload in four bytes, the lowest first, and
/// the payload; and a header of these bytes is read as that length. More
/// than 16 MiB are refused by both sides.
pub proof fn frames_carry_their_length(
    payload: Vec<u8>,
    r: Result<Vec<u8>, String>,
    header: &[u8],
    length: Result<usize, String>,
)
    requires
        call_ensures(frame, (payload,), r),
        call_ensures(frame_length, (header,), length),
        r is Ok,
        header@ == (r->Ok_0)@.take(4),
    ensures
        payload@.len() <= 16 * 1024 * 1024,
        (r->Ok_0)@.len() == payload@.len() + 4,
        (r->Ok_0)@.skip(4) == payload@,
        (r->Ok_0)@[0] + 256 * (r->Ok_0)@[1] + 65536 * (r->Ok_0)@[2] + 16777216 * (r->Ok_0)@[3]
            == payload@.len(),
        length is Ok,
        length->Ok_0 == payload@.len(),
{
    let f = (r->Ok_0)@;
    crate::codec::framing_round_trips(payload@, Seq::empty());
    assert(f + Seq::<u8>::empty() =~= f);
    crate::codec::little_endian_round_trips(payload@.len() as u32);
    assert(f.take(4) =~= crate::codec::little_endian(payload@.len() as u32));
    assert(f.skip(4) =~= payload@);
    assert(f[0] == f.take(4)[0] && f[1] == f.take(4)[1] && f[2] == f.take(4)[2] && f[3] == f.take(
        4,
    )[3]);
}

/// Payloads of up to 16 MiB are framed, and headers of up to 16 MiB are
/// read.
pub proof fn frames_are_bounded(
    payload: Vec<u8>,
    r: Result<Vec<u8>, String>,
    header: &[u8],
    length: Result<usize, String>,
)
    requires
        call_ensures(frame, (payload,), r),
        call_ensures(frame_length, (header,), length),
    ensures
        r is Ok <==> payload@.len() <= 16777216,
        length is Ok <==> header@[0] + 256 * header@[1] + 65536 * header@[2] + 16777216 * header@[3]
            <= 16777216,
{
}

/// A link that is not up connects; one whose lease is half over renews it;
/// else the call runs. A failed renewal connects anew.
pub proof fn leases_are_renewed_at_half_their_life(
    before: Link,
    after: Link,
    retry: bool,
    now: u64,
    action: LinkAction,
)
    requires
        exists|s: &mut Link|
            #[trigger] call_ensures(Link::step, (s, LinkEvent::Begin { retry }, now), action) && *s
                == before && *final(s) == after,
    ensures
        !before.connected ==> action is Connect,
        before.connected && now - before.renewed_at >= 450_000 ==> action is Renew,
        before.connected && now - before.renewed_at < 450_000 ==> action is Run,
        after.retry == retry,
        after.connected == before.connected,
        after.renewed_at == before.renewed_at,
{
}

/// What comes of each step: a renewed or a new link runs the call and counts
/// from now; a failed call is tried once more on a new link, if it may be,
/// and then never again.
pub proof fn failed_calls_are_tried_once_more(
    before: Link,
    after: Link,
    event: LinkEvent,
    now: u64,
    action: LinkAction,
)
    requires
        exists|s: &mut Link|
            #[trigger] call_ensures(Link::step, (s, event, now), action) && *s == before
                && *final(s) == after,
    ensures
        event == (LinkEvent::Renewed { ok: true }) || event == (LinkEvent::Connected { ok: true })
            ==> action is Run && after.renewed_at == now,
        event == (LinkEvent::Connected { ok: true }) ==> after.connected,
        event == (LinkEvent::Renewed { ok: false }) ==> action is Connect && !after.connected,
        event == (LinkEvent::Connected { ok: false }) ==> action is Fail,
        event == (LinkEvent::Ran { ok: true }) ==> action is Succeed,
        event == (LinkEvent::Ran { ok: false }) && before.retry ==> action is Connect
            && !after.retry && !after.connected,
        event == (LinkEvent::Ran { ok: false }) && !before.retry ==> action is Fail,
{
}

/// The portal offers protocol 25, and asks for a lease exactly when it asks
/// for more than to look.
pub proof fn greetings_ask_for_a_lease_when_they_need_one(
    requested: ConnectionCapabilities,
    scope: Option<String>,
    request: Request,
)
    requires
        call_ensures(hello, (requested, scope), request),
    ensures
        request matches Request::Hello { version, caps, scope: s, lease } && version == 25 && caps
            == requested && s == scope && (lease is Some <==> requested.control || requested.input
            || requested.session || requested.interaction_domain) && (lease matches Some(l)
            ==> l.ttl_ms == 900_000),
{
}

/// A connection stands on protocol 24 or 25 and no other, with what the
/// compositor granted.
pub proof fn two_protocols_are_spoken(response: Response, r: Result<Client, ClientError>)
    requires
        call_ensures(Client::establish, (response,), r),
    ensures
        r is Ok <==> (response matches Response::Hello { version, caps, lease } && (version == 24
            || version == 25)),
        r matches Ok(client) ==> (response matches Response::Hello { version, caps, lease }
            && client.version == version && client.caps == caps && client.lease == lease),
        response is Error ==> r is Err && r->Err_0 is Refused,
{
}

/// A frame of a stream is handed on as it came: the same stream and number,
/// size and damage, and where its pixels are.
pub proof fn stream_frames_are_handed_on(
    before: Client,
    after: Client,
    event: Event,
    r: Result<StreamMessage, ClientError>,
)
    requires
        exists|s: &mut Client|
            #[trigger] call_ensures(
                Client::next_stream_message,
                (s, StreamInput::Event(event)),
                r,
            ) && *s == before && *final(s) == after,
    ensures
        after.lease == before.lease,
        r is Ok,
        event is StreamFrame <==> r->Ok_0 is Frame,
        event is StreamEnded <==> r->Ok_0 is Ended,
        event is StreamFrame ==> {
            let f = r->Ok_0->Frame_0;
            &&& f.stream_id == event->StreamFrame_stream_id
            &&& f.sequence == event->sequence
            &&& f.width == event->width
            &&& f.height == event->height
            &&& f.stride == event->stride
            &&& f.format == event->format
            &&& f.damage == event->damage
            &&& f.dropped == event->dropped
            &&& f.byte_len == event->byte_len
            &&& event->slot matches Some(slot) ==> f.payload == StreamPayload::Slot(slot)
            &&& event->slot is None && event->format is Dmabuf ==> f.payload is Dmabuf
            &&& event->slot is None && !(event->format is Dmabuf) ==> f.payload is Memfd
        },
        event is StreamEnded ==> r->Ok_0->Ended_stream_id == event->StreamEnded_stream_id
            && r->Ok_0->reason == event->reason,
{
}

/// A renewed lease is kept, an error is an error, and every other response
/// is skipped.
pub proof fn renewed_leases_are_kept(
    before: Client,
    after: Client,
    response: Response,
    r: Result<StreamMessage, ClientError>,
)
    requires
        exists|s: &mut Client|
            #[trigger] call_ensures(
                Client::next_stream_message,
                (s, StreamInput::Response(response)),
                r,
            ) && *s == before && *final(s) == after,
    ensures
        response matches Response::LeaseRenewed { lease } ==> after.lease == Some(lease) && r is Ok
            && r->Ok_0 is LeaseRenewed,
        response is Error ==> r is Err && r->Err_0 is Failed && after.lease == before.lease,
        !(response is LeaseRenewed) && !(response is Error) ==> r is Ok && r->Ok_0 is Skip
            && after.lease == before.lease,
{
}

/// A stream message is told by the type that it announces.
pub proof fn stream_messages_are_told_by_type(bytes: &[u8], r: Result<StreamKind, ClientError>)
    requires
        call_ensures(classify_stream_message, (bytes,), r),
    ensures
        ({
            let announced = crate::codec::json_text_field(bytes@, "type"@);
            &&& r is Ok <==> announced is Ok && announced->Ok_0 is Some
            &&& r is Ok ==> {
                let t = announced->Ok_0->0;
                &&& t == "StreamFrame"@ ==> r->Ok_0 is Frame
                &&& t == "StreamEnded"@ ==> r->Ok_0 is Ended
                &&& t == "LeaseRenewed"@ ==> r->Ok_0 is LeaseRenewed
                &&& t == "Error"@ ==> r->Ok_0 is Error
                &&& r->Ok_0 is Frame ==> t == "StreamFrame"@
                &&& r->Ok_0 is Ended ==> t == "StreamEnded"@
                &&& r->Ok_0 is LeaseRenewed ==> t == "LeaseRenewed"@
                &&& r->Ok_0 is Error ==> t == "Error"@
            }
        }),
{
    reveal_strlit("StreamFrame");
    reveal_strlit("StreamEnded");
    reveal_strlit("LeaseRenewed");
    reveal_strlit("Error");
    assert("StreamFrame"@[6] != "StreamEnded"@[6]);
    assert("StreamFrame"@.len() != "LeaseRenewed"@.len());
    assert("Error"@.len() != "LeaseRenewed"@.len());
}

/// A captured file is taken only as a regular file of the very length, with
/// every seal on it.
pub proof fn captures_are_sealed_files_of_their_length(
    expected: u64,
    is_file: bool,
    len: u64,
    seals: i32,
    r: Result<(), String>,
    sized: Result<(), String>,
)
    requires
        call_ensures(check_file, (expected, is_file, len, seals), r),
        call_ensures(validate_len, (len,), sized),
    ensures
        r is Ok <==> is_file && len == expected && seals >= 0 && seals & 15 == 15,
        sized is Ok <==> 1 <= len <= 288 * 1024 * 1024,
{
}

/// A descriptor is taken only with its marker byte, and whole.
pub proof fn descriptors_come_with_their_marker(
    received: isize,
    marker: u8,
    truncated: bool,
    fd: i32,
    r: Result<i32, String>,
)
    requires
        call_ensures(descriptor_arrived, (received, marker, truncated, fd), r),
    ensures
        r is Ok <==> received == 1 && marker == 0xfd && !truncated && fd >= 0,
        r is Ok ==> r->Ok_0 == fd,
{
}

/// What was asked for is what is answered; an error is told as one, and any
/// other response is unexpected.
pub proof fn responses_answer_their_request(
    client: Client,
    response: Response,
    picked: Result<crate::schema::PickResult, ClientError>,
    confirmed: Result<crate::schema::ConfirmPickResult, ClientError>,
    captured: Result<(u32, u32, u64), ClientError>,
    started: Result<crate::client::StreamStarted, ClientError>,
    subscribed: Result<(), ClientError>,
)
    requires
        call_ensures(Client::pick_target, (&client, response), picked),
        call_ensures(Client::pick_confirm, (&client, response), confirmed),
        call_ensures(Client::capture_output, (&client, response), captured),
        call_ensures(Client::start_output_stream_target, (&client, response), started),
        call_ensures(Client::subscribe, (&client, response), subscribed),
    ensures
        picked is Ok <==> response is Picked,
        confirmed is Ok <==> response is ConfirmPicked,
        captured is Ok <==> response is CaptureOutput,
        started is Ok <==> response is StreamOutputStarted,
        subscribed is Ok <==> response is Subscribed,
        response matches Response::Picked { result } ==> picked->Ok_0 == result,
        response matches Response::ConfirmPicked { result } ==> confirmed->Ok_0 == result,
        response is Error ==> picked->Err_0 is Failed && confirmed->Err_0 is Failed
            && captured->Err_0 is Failed && started->Err_0 is Failed && subscribed->Err_0 is Failed,
        !(response is Error) && !(response is Picked) ==> picked->Err_0 is Unexpected,
        !(response is Error) && !(response is ConfirmPicked) ==> confirmed->Err_0 is Unexpected,
{
}

/// A lease is replaced by the one that was granted, and by nothing else.
pub proof fn granted_leases_are_kept(
    before: Client,
    after: Client,
    response: Response,
    r: Result<LeaseGrant, ClientError>,
)
    requires
        exists|s: &mut Client|
            #[trigger] call_ensures(Client::renew_lease, (s, response), r) && *s == before
                && *final(s) == after,
    ensures
        r is Ok <==> response is LeaseRenewed,
        r is Ok ==> after.lease == Some(r->Ok_0) && response == (Response::LeaseRenewed {
            lease: r->Ok_0,
        }),
        r is Err ==> after.lease == before.lease,
        after.version == before.version && after.caps == before.caps,
{
}

/// An event is told by the type that it announces, and one without is
/// invalid.
pub proof fn events_are_told_by_type(client: Client, bytes: &[u8], r: Result<EventKind, ClientError>)
    requires
        call_ensures(Client::next_event, (&client, bytes), r),
    ensures
        ({
            let announced = crate::codec::json_text_field(bytes@, "type"@);
            &&& r is Ok <==> announced is Ok && announced->Ok_0 is Some
            &&& r is Ok ==> (r->Ok_0 is SettingsChanged <==> announced->Ok_0->0
                == "SettingsChanged"@)
            &&& r is Err ==> r->Err_0 is Invalid
        }),
{
}

/// Settings and the end of a stream are taken only from their own answer,
/// the latter only for the stream that was asked for.
pub proof fn answers_of_their_kind_are_taken(
    client: Client,
    response: Response,
    stream_id: u64,
    told: Result<(), ClientError>,
    stopped: Result<(), ClientError>,
)
    requires
        call_ensures(Client::settings, (&client, response), told),
        call_ensures(Client::stop_output_stream, (&client, stream_id, response), stopped),
    ensures
        told is Ok <==> response is Settings,
        stopped is Ok <==> response == (Response::StreamOutputStopped { stream_id }),
        response is Error ==> told is Err && told->Err_0 is Failed && stopped is Err
            && stopped->Err_0 is Failed && told->Err_0->Failed_0@
            == response->Error_message@ && stopped->Err_0->Failed_0@ == response->Error_message@,
{
}

/// A link starts unconnected, with no retry and its lease as of now.
pub proof fn links_start_unconnected(now: u64, link: Link)
    requires
        call_ensures(Link::new, (now,), link),
    ensures
        !link.connected && !link.retry,
        link.renewed_at == now,
{
}

/// A connection that may only ask is not privileged; one that may do
/// anything else is.
pub proof fn asking_is_no_privilege(
    asking: ConnectionCapabilities,
    caps: ConnectionCapabilities,
    yes: bool,
    no: bool,
)
    requires
        call_ensures(ConnectionCapabilities::query, (), asking),
        call_ensures(ConnectionCapabilities::privileged, (caps,), yes),
        call_ensures(ConnectionCapabilities::privileged, (asking,), no),
    ensures
        asking.query,
        !no,
        !yes <==> !caps.control && !caps.input && !caps.session && !caps.interaction_domain,
{
}

} // verus!
