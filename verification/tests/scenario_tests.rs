//! Byte-level scenarios driving a frame reader per peer and one registry,
//! the way the server's dispatch loop does.

use async_chat::message::{ParsedMsg, SerializedMessage, MAX_MSG_LEN};
use async_chat::reader::{FrameReader, PayloadOutcome, ReadState};
use async_chat::registry::{ConnMsg, Outgoing, Registry};

/// Feeds a raw byte stream through one peer's frame reader and collects the
/// events it forwards, reading in chunks like a socket would deliver them.
fn pump(reader: &mut FrameReader, mut stream: &[u8]) -> Vec<ParsedMsg> {
    let mut events = Vec::new();
    loop {
        match reader.current_state() {
            ReadState::ReadHeader => {
                if stream.len() < 5 {
                    return events;
                }
                let (header, rest) = stream.split_at(5);
                stream = rest;
                if let Some(info) = reader.on_header(header) {
                    events.push(info);
                }
            }
            ReadState::ReadPayload { size, .. } => {
                let need = (size - 5) as usize;
                if stream.len() < need {
                    return events;
                }
                let (payload, rest) = stream.split_at(need);
                stream = rest;
                match reader.on_payload(payload) {
                    PayloadOutcome::Forward(msg) => events.push(msg),
                    PayloadOutcome::Dropped => {}
                    PayloadOutcome::Invalid => return events,
                }
            }
            ReadState::DiscardMessage { remaining } => {
                let take = (remaining as usize).min(stream.len()).min(100);
                if take == 0 {
                    return events;
                }
                stream = &stream[take..];
                reader.on_discarded(take);
            }
        }
    }
}

#[test]
fn hello_between_two_peers_end_to_end() {
    let a = "192.168.0.1:4444";
    let b = "192.168.0.2:5555";
    let mut registry = Registry::new(100, MAX_MSG_LEN);
    assert!(registry.register(a.to_owned()).is_none());
    assert!(registry.register(b.to_owned()).is_none());

    // A's socket delivers one text frame saying "hello".
    let wire = SerializedMessage::from_string("hello");
    let mut reader_a = FrameReader::new(MAX_MSG_LEN as u32);
    let events = pump(&mut reader_a, wire.as_bytes());
    assert_eq!(events.len(), 1);

    let mut deliveries: Vec<Outgoing> = Vec::new();
    for msg in events {
        deliveries.extend(registry.handle_message(ConnMsg {
            addr: a.to_owned(),
            msg,
        }));
    }
    assert_eq!(deliveries.len(), 2);
    assert_eq!(deliveries[0].dest, a);
    assert_eq!(
        ParsedMsg::from_bytes(deliveries[0].frame.as_bytes()),
        Some(ParsedMsg::Text("You: hello".to_owned()))
    );
    assert_eq!(deliveries[1].dest, b);
    assert_eq!(
        ParsedMsg::from_bytes(deliveries[1].frame.as_bytes()),
        Some(ParsedMsg::Text(format!("{}: hello", a)))
    );
}

#[test]
fn oversized_then_count_end_to_end() {
    // One peer claims total_size = MAX_MSG_LEN + 1000 and then, after the
    // announced bytes, sends a valid /count frame on the same connection:
    // the connection survives, a too-long notice is dispatched, and the
    // count is answered.
    let a = "10.1.1.1:7777";
    let mut registry = Registry::new(100, MAX_MSG_LEN);
    assert!(registry.register(a.to_owned()).is_none());

    let oversized = (MAX_MSG_LEN + 1000) as u32;
    let mut stream: Vec<u8> = Vec::new();
    stream.extend_from_slice(&oversized.to_be_bytes());
    stream.push(0);
    stream.extend(std::iter::repeat(b'x').take((oversized - 5) as usize));
    stream.extend_from_slice(SerializedMessage::from_string("/count").as_bytes());

    let mut reader = FrameReader::new(MAX_MSG_LEN as u32);
    let events = pump(&mut reader, &stream);
    assert_eq!(events.len(), 2);

    let mut deliveries: Vec<Outgoing> = Vec::new();
    for msg in events {
        deliveries.extend(registry.handle_message(ConnMsg {
            addr: a.to_owned(),
            msg,
        }));
    }
    assert_eq!(deliveries.len(), 2);
    assert_eq!(deliveries[0].dest, a);
    assert_eq!(
        ParsedMsg::from_bytes(deliveries[0].frame.as_bytes()),
        Some(ParsedMsg::Text(
            "SERVER.INFO: Your message is too long. Maximum allowed lenght in bytes is 5120"
                .to_owned()
        ))
    );
    assert_eq!(deliveries[1].dest, a);
    assert_eq!(
        ParsedMsg::from_bytes(deliveries[1].frame.as_bytes()),
        Some(ParsedMsg::UserCount(1))
    );
}
