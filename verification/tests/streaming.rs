use gigachat::sse::SseDecoder;
use gigachat::stream::{StreamDecoder, StreamError};

#[test]
fn sse_frames_events_on_blank_lines() {
    let mut d = SseDecoder::new();
    let events = d.feed(b"data: one\n\ndata: two\n\n");
    assert_eq!(events, vec![b"one".to_vec(), b"two".to_vec()]);
}

#[test]
fn sse_handles_all_line_terminators() {
    let mut d = SseDecoder::new();
    let events = d.feed(b"data: a\r\n\r\ndata: b\r\rdata: c\n\n");
    assert_eq!(events, vec![b"a".to_vec(), b"b".to_vec(), b"c".to_vec()]);
}

#[test]
fn sse_joins_multiple_data_lines_with_a_line_feed() {
    let mut d = SseDecoder::new();
    let events = d.feed(b"data: first\ndata: second\n\n");
    assert_eq!(events, vec![b"first\nsecond".to_vec()]);
}

#[test]
fn sse_survives_chunks_split_anywhere() {
    let mut d = SseDecoder::new();
    let mut events = Vec::new();
    // One event split across five chunks, the terminator split across two.
    for chunk in [&b"da"[..], b"ta: he", b"llo", b"\r", b"\n\n"] {
        events.extend(d.feed(chunk));
    }
    assert_eq!(events, vec![b"hello".to_vec()]);
}

#[test]
fn sse_ignores_comments_and_other_fields() {
    let mut d = SseDecoder::new();
    let events = d.feed(b": a comment\nevent: message\nid: 7\ndata: payload\n\n");
    assert_eq!(events, vec![b"payload".to_vec()]);
}

#[test]
fn sse_discards_an_unterminated_trailing_event() {
    let mut d = SseDecoder::new();
    let events = d.feed(b"data: done\n\ndata: half");
    assert_eq!(events, vec![b"done".to_vec()]);
    // Nothing was dispatched for the half-gathered event.
}

#[test]
fn sse_blank_lines_without_data_dispatch_nothing() {
    let mut d = SseDecoder::new();
    let events = d.feed(b"\n\n\r\n: note\n\n");
    assert_eq!(events, Vec::<Vec<u8>>::new());
}

fn fragment_event(content: &str) -> Vec<u8> {
    let mut v = b"data: ".to_vec();
    v.extend_from_slice(
        format!(
            r#"{{"model":"GigaChat-2-Max","created":1720000000,"choices":[{{"delta":{{"content":"{}"}},"index":0}}]}}"#,
            content
        )
        .as_bytes(),
    );
    v.extend_from_slice(b"\n\n");
    v
}

#[test]
fn stream_yields_fragments_then_ends_on_the_sentinel() {
    let mut d = StreamDecoder::new();
    let mut bytes = Vec::new();
    bytes.extend(fragment_event("Hel"));
    bytes.extend(fragment_event("lo"));
    bytes.extend_from_slice(b"data: [DONE]\n\n");
    let items = d.feed(&bytes);
    // Two fragments in arrival order; no item for the sentinel.
    assert_eq!(items.len(), 2);
    let first = items[0].as_ref().unwrap();
    assert_eq!(first.created, 1720000000);
    assert_eq!(first.choices.len(), 1);
    assert_eq!(first.choices[0].index, 0);
    let second = items[1].as_ref().unwrap();
    assert_eq!(second.choices.len(), 1);
    // The stream has completed: whatever arrives later yields nothing.
    let after = d.feed(&fragment_event("ghost"));
    assert_eq!(after.len(), 0);
    assert_eq!(d.transport_failed(), None);
}

#[test]
fn stream_fails_once_on_a_malformed_payload() {
    let mut d = StreamDecoder::new();
    let mut bytes = Vec::new();
    bytes.extend(fragment_event("ok"));
    bytes.extend_from_slice(b"data: not json\n\n");
    bytes.extend(fragment_event("after"));
    bytes.extend_from_slice(b"data: [DONE]\n\n");
    let items = d.feed(&bytes);
    // The valid fragment arrives, then the one failure carrying the raw
    // payload, then nothing more - the later valid event is never yielded.
    assert_eq!(items.len(), 2);
    assert!(items[0].is_ok());
    match &items[1] {
        Err(StreamError::StreamDeserializationFailed { event_data }) => {
            assert_eq!(event_data, b"not json");
        }
        other => panic!("expected a deserialization failure, got {:?}", other),
    }
    assert_eq!(d.feed(&fragment_event("more")).len(), 0);
}

#[test]
fn stream_fails_on_well_formed_json_of_the_wrong_shape() {
    let mut d = StreamDecoder::new();
    let items = d.feed(b"data: {\"weird\":true}\n\n");
    assert_eq!(items.len(), 1);
    match &items[0] {
        Err(StreamError::StreamDeserializationFailed { event_data }) => {
            assert_eq!(event_data, b"{\"weird\":true}");
        }
        other => panic!("expected a deserialization failure, got {:?}", other),
    }
}

#[test]
fn transport_failure_is_the_last_item() {
    let mut d = StreamDecoder::new();
    let items = d.feed(&fragment_event("x"));
    assert_eq!(items.len(), 1);
    assert_eq!(d.transport_failed(), Some(Err(StreamError::EventParseFailed)));
    // Reported once; afterwards the stream stays silent.
    assert_eq!(d.transport_failed(), None);
    assert_eq!(d.feed(&fragment_event("y")).len(), 0);
}

#[test]
fn sentinel_must_be_exact() {
    let mut d = StreamDecoder::new();
    let items = d.feed(b"data: [DONE]!\n\n");
    // Not the sentinel: it is treated as a payload and fails to decode.
    assert_eq!(items.len(), 1);
    assert!(items[0].is_err());
}
