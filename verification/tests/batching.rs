use gigachat::batch::{
    decode_batch_output, parse_usize, poll_outcome, usize_to_string, BatchBuilder,
    BatchCheckCounts, BatchCheckResponse, BatchCheckResult, BatchCreateResponse, BatchError,
    BatchHandler, BatchResponseResult, Method, PollAction, Status,
};
use gigachat::generation::{GenerationBuilder, Message, Model};
use gigachat::json::{parse_json_bytes, Json};

#[test]
fn statuses_and_methods_round_trip() {
    for s in [Status::Created, Status::InProgress, Status::Completed] {
        assert_eq!(Status::from_json(&s.to_json()), Some(s));
    }
    assert_eq!(Status::from_json(&Json::Str("queued".to_string())), None);
    assert_eq!(
        Method::from_json(&Json::Str("chat_completions".to_string())),
        Some(Method::ChatCompletions)
    );
    assert_eq!(Method::from_json(&Json::Str("embedder".to_string())), Some(Method::Embedder));
}

#[test]
fn decimal_keys_round_trip() {
    for n in [0usize, 1, 9, 10, 42, 999, 1000, usize::MAX] {
        let text = usize_to_string(n);
        assert_eq!(parse_usize(&text), Some(n));
    }
    assert_eq!(usize_to_string(105), "105");
    assert_eq!(parse_usize(""), None);
    assert_eq!(parse_usize("12a"), None);
    assert_eq!(parse_usize("999999999999999999999999999999"), None);
}

fn check_response(status: Status, completed: usize, failed: usize, total: usize) -> BatchCheckResponse {
    BatchCheckResponse {
        id: "job-1".to_string(),
        method: Method::ChatCompletions,
        request_counts: BatchCheckCounts { total, completed, failed },
        status,
        output_file_id: Some("file-9".to_string()),
        created_at: 1,
        updated_at: 2,
    }
}

#[test]
fn poll_progress_counts_items_no_longer_outstanding() {
    // completed=2, failed=1, total=5 surfaces as ready 3 of 5.
    let r = poll_outcome(check_response(Status::InProgress, 2, 1, 5));
    assert_eq!(r, PollAction::Ready(BatchCheckResult::InProgress { ready: 3, total: 5 }));
}

#[test]
fn poll_created_is_pending_and_completed_asks_for_the_output() {
    assert_eq!(
        poll_outcome(check_response(Status::Created, 0, 0, 5)),
        PollAction::Ready(BatchCheckResult::Pending)
    );
    assert_eq!(
        poll_outcome(check_response(Status::Completed, 4, 1, 5)),
        PollAction::FetchResults { output_file_id: Some("file-9".to_string()) }
    );
}

#[test]
fn batch_responses_decode_from_the_wire() {
    let ack = parse_json_bytes(
        br#"{"id":"b1","method":"chat_completions","counts":{"total":3},"status":"created","created_at":1700000000000,"updated_at":1700000000001}"#,
    )
    .unwrap();
    let ack = BatchCreateResponse::from_json(&ack).unwrap();
    assert_eq!(ack.id, "b1");
    assert_eq!(ack.counts.total, 3);
    assert_eq!(ack.status, Status::Created);

    let poll = parse_json_bytes(
        br#"{"id":"b1","method":"chat_completions","request_counts":{"total":3,"completed":2,"failed":1},"status":"completed","output_file_id":"f1","created_at":1,"updated_at":2}"#,
    )
    .unwrap();
    let poll = BatchCheckResponse::from_json(&poll).unwrap();
    assert_eq!(poll.request_counts.completed, 2);
    assert_eq!(poll.request_counts.failed, 1);
    assert_eq!(poll.output_file_id, Some("f1".to_string()));
}

fn ok_line(key: usize) -> String {
    format!(
        r#"{{"key":"{}","result":{{"choices":[{{"index":0,"message":{{"role":"assistant","content":"r{}"}},"finish_reason":"stop"}}],"created":1,"model":"GigaChat-2-Max","usage":{{"prompt_tokens":1,"completion_tokens":1,"precached_prompt_tokens":0,"total_tokens":2}}}}}}"#,
        key, key
    )
}

fn err_line(key: usize) -> String {
    format!(r#"{{"key":"{}","error":{{"status":429,"message":"too many"}}}}"#, key)
}

#[test]
fn completed_batch_with_a_failed_item_keeps_submission_order() {
    // Three items: two generated responses and one per-item failure, arriving
    // out of order. The decoded list has length three, in submission order,
    // with the failure kept as a normal outcome.
    let file = format!("{}\n{}\n{}\n", ok_line(2), err_line(1), ok_line(0));
    let out = decode_batch_output(file.as_bytes(), 3).unwrap();
    assert_eq!(out.len(), 3);
    let oks = out
        .iter()
        .filter(|r| matches!(r, BatchResponseResult::Response(_)))
        .count();
    assert_eq!(oks, 2);
    match &out[0] {
        BatchResponseResult::Response(r) => assert_eq!(r.text(), "r0"),
        other => panic!("expected a response at position 0, got {:?}", other),
    }
    match &out[1] {
        BatchResponseResult::Error(e) => {
            assert_eq!(e.status, 429);
            assert_eq!(e.message, "too many");
        }
        other => panic!("expected the failed item at position 1, got {:?}", other),
    }
    match &out[2] {
        BatchResponseResult::Response(r) => assert_eq!(r.text(), "r2"),
        other => panic!("expected a response at position 2, got {:?}", other),
    }
    // An item outcome reads as a plain result.
    let first = decode_batch_output(file.as_bytes(), 3).unwrap().remove(0);
    assert!(first.res().is_ok());
}

#[test]
fn batch_output_must_cover_every_position() {
    let missing = format!("{}\n{}\n", ok_line(0), ok_line(2));
    assert_eq!(decode_batch_output(missing.as_bytes(), 3), Err(BatchError::MalformedOutput));
    let dup = format!("{}\n{}\n", ok_line(0), err_line(0));
    assert_eq!(decode_batch_output(dup.as_bytes(), 2), Err(BatchError::MalformedOutput));
    let out_of_range = format!("{}\n", ok_line(7));
    assert_eq!(decode_batch_output(out_of_range.as_bytes(), 1), Err(BatchError::MalformedOutput));
    let garbage = b"not a line\n";
    assert_eq!(decode_batch_output(garbage, 1), Err(BatchError::MalformedOutput));
}

#[test]
fn empty_batch_output_decodes_to_the_empty_batch() {
    let out = decode_batch_output(b"", 0).unwrap();
    assert_eq!(out.len(), 0);
}

#[test]
fn submission_payload_is_one_request_per_line() {
    let req = |text: &str| {
        GenerationBuilder::new()
            .with_model(Model::GigaChat2Lite)
            .with_messages(vec![Message::user(text.to_string())])
            .build()
    };
    let payload = BatchBuilder::new()
        .with_request(req("first"))
        .with_request(req("second"))
        .payload();
    let text = String::from_utf8(payload).unwrap();
    let lines: Vec<&str> = text.split_terminator('\n').collect();
    assert_eq!(lines.len(), 2);
    for (i, expected) in ["first", "second"].iter().enumerate() {
        let tree = parse_json_bytes(lines[i].as_bytes()).unwrap();
        assert_eq!(tree.get("model"), Some(&Json::Str("GigaChat-2".to_string())));
        match tree.get("messages") {
            Some(Json::Arr(items)) => {
                assert_eq!(items[0].get("content"), Some(&Json::Str(expected.to_string())));
            }
            other => panic!("expected messages, got {:?}", other),
        }
    }
    assert!(text.ends_with('\n'));
}

#[test]
fn handler_keeps_only_the_job_id() {
    let h = BatchHandler::new("job-42".to_string());
    assert_eq!(h.id(), "job-42");
}
