use async_chat::message::{Cmd, InfoKind, ParsedMsg, SerializedMessage, MAX_MSG_LEN};
use async_chat::reader::{FrameReader, PayloadOutcome, ReadState};

fn header_of(size: u32, msg_type: u8) -> Vec<u8> {
    let mut h = size.to_be_bytes().to_vec();
    h.push(msg_type);
    h
}

#[test]
fn reads_one_text_frame() {
    let mut reader = FrameReader::new(MAX_MSG_LEN as u32);
    assert_eq!(reader.current_state(), ReadState::ReadHeader);

    let frame = SerializedMessage::from_string("hello");
    let bytes = frame.as_bytes();
    let emit = reader.on_header(&bytes[..5]);
    assert_eq!(emit, None);
    assert_eq!(
        reader.current_state(),
        ReadState::ReadPayload { size: 10, msg_type: 0 }
    );

    let out = reader.on_payload(&bytes[5..]);
    assert_eq!(out, PayloadOutcome::Forward(ParsedMsg::Text("hello".to_owned())));
    assert_eq!(reader.current_state(), ReadState::ReadHeader);
}

#[test]
fn undersized_header_dropped_silently() {
    // A size too small to hold a header is malformed: no event, no state
    // change, the connection stays up.
    let mut reader = FrameReader::new(MAX_MSG_LEN as u32);
    for size in [0u32, 1, 4, 5] {
        let emit = reader.on_header(&header_of(size, 0));
        assert_eq!(emit, None);
        assert_eq!(reader.current_state(), ReadState::ReadHeader);
    }
}

#[test]
fn undecodable_payload_is_fatal() {
    let mut reader = FrameReader::new(MAX_MSG_LEN as u32);
    let emit = reader.on_header(&header_of(6, 7));
    assert_eq!(emit, None);
    let out = reader.on_payload(&[0u8]);
    assert_eq!(out, PayloadOutcome::Invalid);
}

#[test]
fn oversized_discard_is_exact() {
    // A frame announcing more than the limit: one too-long notice, then
    // exactly size - 5 bytes are discarded, over however many reads.
    let mut reader = FrameReader::new(MAX_MSG_LEN as u32);
    let size = (MAX_MSG_LEN + 1000) as u32;
    let emit = reader.on_header(&header_of(size, 0));
    assert_eq!(emit, Some(ParsedMsg::Info(InfoKind::MessageTooLong)));
    let mut remaining = size - 5;
    assert_eq!(reader.current_state(), ReadState::DiscardMessage { remaining });

    // Uneven chunks: 256 at a time, then the odd tail.
    let mut consumed = 0u32;
    while remaining > 0 {
        let chunk = remaining.min(256);
        reader.on_discarded(chunk as usize);
        remaining -= chunk;
        consumed += chunk;
        if remaining > 0 {
            assert_eq!(reader.current_state(), ReadState::DiscardMessage { remaining });
        }
    }
    assert_eq!(consumed, size - 5);
    assert_eq!(reader.current_state(), ReadState::ReadHeader);
}

#[test]
fn too_long_then_count_still_parses() {
    // A peer announces an oversized frame with no payload behind it beyond
    // the discarded run; the connection is not closed, the notice is
    // emitted, and a following /count frame parses correctly.
    let mut reader = FrameReader::new(MAX_MSG_LEN as u32);
    let size = (MAX_MSG_LEN + 1000) as u32;
    let emit = reader.on_header(&header_of(size, 0));
    assert_eq!(emit, Some(ParsedMsg::Info(InfoKind::MessageTooLong)));

    // The discard runs in short reads of whatever arrives.
    let mut remaining = size - 5;
    while remaining > 0 {
        let chunk = remaining.min(100);
        reader.on_discarded(chunk as usize);
        remaining -= chunk;
    }
    assert_eq!(reader.current_state(), ReadState::ReadHeader);

    let frame = SerializedMessage::from_string("/count");
    let bytes = frame.as_bytes();
    assert_eq!(reader.on_header(&bytes[..5]), None);
    let out = reader.on_payload(&bytes[5..]);
    assert_eq!(out, PayloadOutcome::Forward(ParsedMsg::Command(Cmd::UserCount)));
    assert_eq!(reader.current_state(), ReadState::ReadHeader);
}

#[test]
fn boundary_sizes_around_limit() {
    let mut reader = FrameReader::new(MAX_MSG_LEN as u32);
    // Exactly the limit is accepted.
    let emit = reader.on_header(&header_of(MAX_MSG_LEN as u32, 0));
    assert_eq!(emit, None);
    assert_eq!(
        reader.current_state(),
        ReadState::ReadPayload { size: MAX_MSG_LEN as u32, msg_type: 0 }
    );
    let payload = vec![b'a'; MAX_MSG_LEN - 5];
    match reader.on_payload(&payload) {
        PayloadOutcome::Forward(ParsedMsg::Text(t)) => assert_eq!(t.len(), MAX_MSG_LEN - 5),
        other => panic!("unexpected outcome: {:?}", other),
    }

    // One over the limit is not.
    let emit = reader.on_header(&header_of(MAX_MSG_LEN as u32 + 1, 0));
    assert_eq!(emit, Some(ParsedMsg::Info(InfoKind::MessageTooLong)));
    assert_eq!(
        reader.current_state(),
        ReadState::DiscardMessage { remaining: MAX_MSG_LEN as u32 - 4 }
    );
}

#[test]
fn user_count_frame_through_reader() {
    let mut reader = FrameReader::new(MAX_MSG_LEN as u32);
    let frame = SerializedMessage::from_user_count(42);
    let bytes = frame.as_bytes();
    assert_eq!(reader.on_header(&bytes[..5]), None);
    let out = reader.on_payload(&bytes[5..]);
    assert_eq!(out, PayloadOutcome::Forward(ParsedMsg::UserCount(42)));
}
