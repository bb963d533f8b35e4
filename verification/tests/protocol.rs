use aegis_portal::blob::{
    check_file, descriptor_arrived, validate_len, BLOB_MARKER, MAX_BLOB_BYTES, REQUIRED_SEALS,
};
use aegis_portal::cast::{buffers_pod, frame_fits, stream_target, usable_extent, Cast, CastAction, CastMessage};
use aegis_portal::client::{
    classify_stream_message, event_kind, hello, stream_kind, Client, ClientError, EventKind,
    StreamInput, StreamKind, StreamMessage, StreamPayload,
};
use aegis_portal::codec::{frame, frame_length, MAX_FRAME};
use aegis_portal::lease::{Link, LinkAction, LinkEvent, LEASE_RENEWAL_MS, LEASE_TTL_MS};
use aegis_portal::schema::{
    ConfirmPickResult, ConnectionCapabilities, Event, LeaseGrant, PickResult, Rect, Request,
    Response, StreamPixelFormat, StreamTarget, WindowId, MIN_PROTOCOL_VERSION, PROTOCOL_VERSION,
};

fn read_frame(bytes: &[u8]) -> Result<Vec<u8>, String> {
    let length = frame_length(&bytes[..4])?;
    Ok(bytes[4..4 + length].to_vec())
}

#[test]
fn framing_round_trips_and_bounds_allocations() {
    let mut message = serde_json::Map::new();
    message.insert(
        "type".to_owned(),
        serde_json::Value::String("Subscribe".to_owned()),
    );
    let payload = serde_json::to_vec(&serde_json::Value::Object(message)).unwrap();
    let bytes = frame(payload).unwrap();
    let decoded: serde_json::Value = serde_json::from_slice(&read_frame(&bytes).unwrap()).unwrap();
    assert_eq!(decoded["type"], "Subscribe");

    let oversized = ((MAX_FRAME as u32) + 1).to_le_bytes();
    assert!(frame_length(&oversized).is_err());
}

#[test]
fn frames_announce_their_length_in_little_endian() {
    assert_eq!(frame(vec![7; 258]).unwrap()[..4], [2, 1, 0, 0]);
    assert_eq!(frame_length(&[0, 0, 0, 1]), Ok(MAX_FRAME));
    assert_eq!(
        frame_length(&[1, 0, 0, 1]),
        Err("frame length 16777217 exceeds 16777216".to_owned())
    );
    assert_eq!(
        frame(vec![0; MAX_FRAME + 1]),
        Err("frame length 16777217 exceeds 16777216".to_owned())
    );
}

#[test]
fn blob_length_is_bounded_before_allocation() {
    assert!(validate_len(0).is_err());
    assert!(validate_len(MAX_BLOB_BYTES).is_ok());
    assert!(validate_len(MAX_BLOB_BYTES + 1).is_err());
}

#[test]
fn blob_problems_have_their_messages() {
    assert_eq!(
        validate_len(0),
        Err("blob length 0 is outside 1..=301989888".to_owned())
    );
    assert_eq!(descriptor_arrived(1, BLOB_MARKER, false, 5), Ok(5));
    for (received, marker, truncated, fd) in [
        (0, BLOB_MARKER, false, 5),
        (1, 0, false, 5),
        (1, BLOB_MARKER, true, 5),
        (1, BLOB_MARKER, false, -1),
    ] {
        assert_eq!(
            descriptor_arrived(received, marker, truncated, fd),
            Err("missing or truncated capture descriptor".to_owned())
        );
    }
    assert_eq!(check_file(16, true, 16, REQUIRED_SEALS), Ok(()));
    assert_eq!(check_file(16, true, 16, 31), Ok(()));
    assert_eq!(
        check_file(16, true, 15, REQUIRED_SEALS),
        Err("capture memfd length/type mismatch (expected 16, got 15)".to_owned())
    );
    assert!(check_file(16, false, 16, REQUIRED_SEALS).is_err());
    assert_eq!(
        check_file(16, true, 16, 7),
        Err("capture descriptor is not fully sealed".to_owned())
    );
    assert!(check_file(16, true, 16, -1).is_err());
}

fn client() -> Client {
    let established = Client::establish(Response::Hello {
        version: PROTOCOL_VERSION,
        caps: ConnectionCapabilities::query(),
        lease: None,
    });
    match established {
        Ok(client) => client,
        Err(_) => panic!("the newest version is spoken"),
    }
}

#[test]
fn handshakes_negotiate_down_to_the_oldest_version() {
    for version in [MIN_PROTOCOL_VERSION, PROTOCOL_VERSION] {
        let established = Client::establish(Response::Hello {
            version,
            caps: ConnectionCapabilities::query(),
            lease: None,
        });
        assert!(matches!(established, Ok(client) if client.version == version));
    }
    for version in [MIN_PROTOCOL_VERSION - 1, PROTOCOL_VERSION + 1] {
        let refused = Client::establish(Response::Hello {
            version,
            caps: ConnectionCapabilities::query(),
            lease: None,
        });
        match refused {
            Err(ClientError::Unsupported(m)) => assert_eq!(
                m,
                format!(
                    "Aegis IPC protocol mismatch: server replied {version}, Portal requires 25"
                )
            ),
            _ => panic!("other versions are refused"),
        }
    }
    assert!(matches!(
        Client::establish(Response::Error { message: "no".into() }),
        Err(ClientError::Refused(m)) if m == "no"
    ));
    assert!(matches!(
        Client::establish(Response::Subscribed),
        Err(ClientError::Unexpected { expected: "Hello", .. })
    ));
}

#[test]
fn leases_are_asked_for_by_privileged_connections_only() {
    match hello(ConnectionCapabilities::query(), None) {
        Request::Hello { version, lease, .. } => {
            assert_eq!(version, PROTOCOL_VERSION);
            assert!(lease.is_none());
        }
        _ => panic!("a handshake"),
    }
    let control = ConnectionCapabilities {
        control: true,
        ..ConnectionCapabilities::query()
    };
    match hello(control, Some("aegis-portal".into())) {
        Request::Hello { scope, lease, .. } => {
            assert_eq!(scope, Some("aegis-portal".to_owned()));
            assert_eq!(lease.map(|l| l.ttl_ms), Some(900_000));
        }
        _ => panic!("a handshake"),
    }
}

#[test]
fn answers_are_matched_to_their_requests() {
    let mut client = client();
    let lease = LeaseGrant {
        id: 3,
        ttl_ms: 10,
        renewable: true,
    };
    assert!(client.renew_lease(Response::LeaseRenewed { lease }).is_ok());
    assert_eq!(client.lease(), Some(lease));
    assert!(client.settings(Response::Settings).is_ok());
    assert!(client.subscribe(Response::Subscribed).is_ok());
    assert!(matches!(
        client.capture_output(Response::CaptureOutput { width: 1, height: 2, png_bytes: 3 }),
        Ok((1, 2, 3))
    ));
    assert!(matches!(
        client.pick_target(Response::Picked { result: PickResult::Output }),
        Ok(PickResult::Output)
    ));
    assert!(matches!(
        client.pick_confirm(Response::ConfirmPicked { result: ConfirmPickResult::Confirmed }),
        Ok(ConfirmPickResult::Confirmed)
    ));
    assert!(client
        .stop_output_stream(7, Response::StreamOutputStopped { stream_id: 7 })
        .is_ok());
    assert!(matches!(
        client.stop_output_stream(7, Response::StreamOutputStopped { stream_id: 8 }),
        Err(ClientError::Unexpected { expected: "StreamOutputStopped", .. })
    ));
    assert!(matches!(
        client.subscribe(Response::Error { message: "no".into() }),
        Err(ClientError::Failed(m)) if m == "no"
    ));
    assert!(matches!(
        client.settings(Response::Subscribed),
        Err(ClientError::Unexpected { expected: "Settings", response: Response::Subscribed })
    ));
    let started = client.start_output_stream_target(Response::StreamOutputStarted {
        stream_id: 7,
        width: 2,
        height: 2,
        format: StreamPixelFormat::Bgra8,
        slots: None,
        slot_stride: None,
        slot_bytes: None,
    });
    assert!(matches!(started, Ok(s) if s.stream_id == 7 && s.width == 2));
}

#[test]
fn messages_are_told_apart_by_their_type() {
    let client = client();
    assert!(matches!(
        client.next_event(b"{\"type\":\"SettingsChanged\",\"revision\":1}"),
        Ok(EventKind::SettingsChanged)
    ));
    assert!(matches!(client.next_event(b"{\"type\":\"X\"}"), Ok(EventKind::Other)));
    assert!(matches!(
        client.next_event(b"{}"),
        Err(ClientError::Invalid(m)) if m == "Aegis IPC event has no type"
    ));
    assert!(matches!(client.next_event(b"{"), Err(ClientError::Invalid(_))));
    assert!(matches!(
        classify_stream_message(b"{\"type\":\"StreamEnded\"}"),
        Ok(StreamKind::Ended)
    ));
    assert!(matches!(
        classify_stream_message(b"{\"type\":1}"),
        Err(ClientError::Invalid(m)) if m == "Aegis IPC stream message has no type"
    ));
    assert_eq!(event_kind(None), EventKind::Untyped);
    assert_eq!(stream_kind(Some("StreamFrame")), StreamKind::Frame);
    assert_eq!(stream_kind(Some("LeaseRenewed")), StreamKind::LeaseRenewed);
    assert_eq!(stream_kind(Some("Error")), StreamKind::Error);
    assert_eq!(stream_kind(Some("Other")), StreamKind::Skip);
}

fn frame_event(format: StreamPixelFormat, slot: Option<u32>) -> StreamInput {
    StreamInput::Event(Event::StreamFrame {
        stream_id: 7,
        sequence: 1,
        width: 2,
        height: 2,
        stride: 8,
        format,
        damage: vec![Rect::new(0, 0, 2, 2)],
        dropped: 0,
        byte_len: 16,
        slot,
    })
}

fn payload_of(client: &mut Client, input: StreamInput) -> StreamPayload {
    match client.next_stream_message(input) {
        Ok(StreamMessage::Frame(frame)) => {
            assert_eq!(frame.sequence, 1);
            assert_eq!(frame.byte_len, 16);
            frame.payload
        }
        _ => panic!("a frame"),
    }
}

#[test]
fn stream_messages_name_their_payload() {
    let mut client = client();
    let dmabuf = StreamPixelFormat::Dmabuf {
        drm_format: 0x3432_5258,
        modifier: 0,
    };
    assert_eq!(
        payload_of(&mut client, frame_event(StreamPixelFormat::Bgra8, None)),
        StreamPayload::Memfd
    );
    assert_eq!(
        payload_of(&mut client, frame_event(dmabuf, None)),
        StreamPayload::Dmabuf
    );
    assert_eq!(
        payload_of(&mut client, frame_event(dmabuf, Some(2))),
        StreamPayload::Slot(2)
    );
    let lease = LeaseGrant {
        id: 1,
        ttl_ms: 2,
        renewable: false,
    };
    assert!(matches!(
        client.next_stream_message(StreamInput::Response(Response::LeaseRenewed { lease })),
        Ok(StreamMessage::LeaseRenewed)
    ));
    assert_eq!(client.lease(), Some(lease));
    assert!(matches!(
        client.next_stream_message(StreamInput::Event(Event::StreamEnded {
            stream_id: 7,
            reason: "gone".into()
        })),
        Ok(StreamMessage::Ended { stream_id: 7, reason }) if reason == "gone"
    ));
    assert!(matches!(
        client.next_stream_message(StreamInput::Response(Response::Error { message: "x".into() })),
        Err(ClientError::Failed(m)) if m == "x"
    ));
    assert!(matches!(
        client.next_stream_message(StreamInput::Response(Response::Subscribed)),
        Ok(StreamMessage::Skip)
    ));
}

#[test]
fn leases_are_renewed_at_half_their_lifetime() {
    assert_eq!(LEASE_TTL_MS, 2 * LEASE_RENEWAL_MS);
    let mut link = Link::new(0);
    assert_eq!(link.step(LinkEvent::Begin { retry: true }, 10), LinkAction::Connect);
    assert_eq!(link.step(LinkEvent::Connected { ok: true }, 10), LinkAction::Run);
    assert_eq!(link.step(LinkEvent::Ran { ok: true }, 20), LinkAction::Succeed);
    assert_eq!(
        link.step(LinkEvent::Begin { retry: true }, 9 + LEASE_RENEWAL_MS),
        LinkAction::Run
    );
    assert_eq!(
        link.step(LinkEvent::Begin { retry: true }, 10 + LEASE_RENEWAL_MS),
        LinkAction::Renew
    );
    assert_eq!(
        link.step(LinkEvent::Renewed { ok: false }, 10 + LEASE_RENEWAL_MS),
        LinkAction::Connect
    );
    assert_eq!(link.step(LinkEvent::Connected { ok: false }, 0), LinkAction::Fail);
}

#[test]
fn a_failed_call_is_made_again_once() {
    let mut link = Link {
        connected: true,
        renewed_at: 0,
        retry: false,
    };
    assert_eq!(link.step(LinkEvent::Begin { retry: true }, 1), LinkAction::Run);
    assert_eq!(link.step(LinkEvent::Ran { ok: false }, 2), LinkAction::Connect);
    assert_eq!(link.step(LinkEvent::Connected { ok: true }, 3), LinkAction::Run);
    assert_eq!(link.step(LinkEvent::Ran { ok: false }, 4), LinkAction::Fail);
    assert_eq!(link.step(LinkEvent::Begin { retry: false }, 5), LinkAction::Run);
    assert_eq!(link.step(LinkEvent::Ran { ok: false }, 6), LinkAction::Fail);
}

#[test]
fn buffers_pod_covers_one_frame() {
    let layout = buffers_pod(640, 480);
    assert_eq!(layout.size, 640 * 480 * 4);
    assert_eq!(layout.stride, 640 * 4);
    assert_eq!(
        (layout.buffers_default, layout.buffers_min, layout.buffers_max),
        (4, 2, 8)
    );
    assert_eq!(layout.blocks, 1);
    assert_eq!(
        (
            layout.data_type_default,
            layout.data_type_plain,
            layout.data_type_shared
        ),
        (1, 1, 2)
    );
}

#[test]
fn extents_must_fit_a_buffer() {
    assert!(usable_extent(1920, 1080));
    assert!(usable_extent(0, 0x7fff_ffff));
    assert!(!usable_extent(0, 0x8000_0000));
    assert!(usable_extent(0x1fff_ffff, 1));
    assert!(!usable_extent(0x2000_0000, 1));
    assert!(!usable_extent(0x2000_0000, 0));
    assert!(!usable_extent(0x1_0000, 0x1_0000));
}

#[test]
fn casts_republish_the_latest_whole_frame() {
    assert!(frame_fits(2, 1, 8));
    assert!(!frame_fits(2, 1, 7));
    let mut cast = Cast::new(2, 1);
    let mut buffer = vec![9u8; 10];
    let chunk = cast.process(&mut buffer);
    assert_eq!((chunk.size, chunk.stride, chunk.offset), (0, 8, 0));
    assert_eq!(
        cast.receive(CastMessage::Frame { pixels: vec![1; 8] }),
        CastAction::Continue
    );
    cast.receive(CastMessage::Frame { pixels: vec![2; 7] });
    assert_eq!(cast.process(&mut buffer).size, 8);
    assert_eq!(buffer, vec![1, 1, 1, 1, 1, 1, 1, 1, 9, 9]);
    let mut small = vec![0u8; 7];
    assert_eq!(cast.process(&mut small).size, 0);
    assert_eq!(cast.receive(CastMessage::LeaseRenewed), CastAction::Continue);
    assert_eq!(
        cast.receive(CastMessage::Ended { reason: "gone".into() }),
        CastAction::End
    );
    assert_eq!(cast.receive(CastMessage::Failed), CastAction::End);
    assert_eq!(cast.report(42).map(|s| (s.node_id, s.width, s.height)), Some((42, 2, 1)));
    assert_eq!(cast.report(42), None);
}

#[test]
fn targets_follow_the_window() {
    assert!(stream_target(None).is_output());
    assert_eq!(
        stream_target(Some(WindowId(4))),
        StreamTarget::Window { window: WindowId(4) }
    );
}
