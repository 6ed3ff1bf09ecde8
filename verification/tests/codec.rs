use gigachat::function::{
    diag_from_json, function_check_outcome, function_check_response_from_fields, FunctionBuilder,
    FunctionCheckDiagnostics, FunctionCheckResult, FunctionError, FunctionExample, FunctionName,
    UserFunction,
};
use gigachat::generation::{
    Choice, FinishReason, FunctionCall, FunctionCallResponse, GenerationBuilder,
    GenerationRequest, GenerationResponse, Message, Model, Usage,
};
use gigachat::executor::RequestError;
use gigachat::json::{parse_json_bytes, render_json, render_json_string, Json};

fn parse(text: &str) -> Json {
    parse_json_bytes(text.as_bytes()).expect("test input must be JSON")
}

#[test]
fn rendering_and_parsing_are_inverse_on_trees() {
    let tree = Json::Obj(vec![
        ("a".to_string(), Json::Int(-3)),
        ("b".to_string(), Json::Arr(vec![Json::Null, Json::Bool(true), Json::Str("x\ny".to_string())])),
        ("c".to_string(), Json::Num("0.5".to_string())),
    ]);
    let bytes = render_json(&tree);
    assert!(!bytes.contains(&b'\n'));
    let back = parse_json_bytes(&bytes).unwrap();
    // serde_json orders object keys, so compare by lookup rather than shape.
    assert_eq!(back.get("a"), Some(&Json::Int(-3)));
    assert_eq!(
        back.get("b"),
        Some(&Json::Arr(vec![Json::Null, Json::Bool(true), Json::Str("x\ny".to_string())]))
    );
    assert_eq!(back.get("c"), Some(&Json::Num("0.5".to_string())));
}

#[test]
fn wrong_shape_bodies_fail_with_the_offending_bytes() {
    let bad = b"{\"choices\":true}";
    match GenerationResponse::from_body(bad) {
        Err(RequestError::ParseResponse { raw }) => assert_eq!(raw, bad.to_vec()),
        other => panic!("expected ParseResponse, got {:?}", other),
    }
    assert!(GenerationResponse::from_body(b"not json").is_err());
}

#[test]
fn parser_rejects_non_json() {
    assert_eq!(parse_json_bytes(b"not json"), None);
    assert_eq!(parse_json_bytes(b""), None);
    assert_eq!(parse_json_bytes(b"{\"k\":"), None);
}

#[test]
fn renderer_produces_real_json_text() {
    assert_eq!(render_json(&Json::Int(7)), b"7".to_vec());
    assert_eq!(render_json_string(&Json::Str("hi".to_string())), "\"hi\"");
    assert_eq!(render_json(&Json::Arr(vec![Json::Bool(false)])), b"[false]".to_vec());
}

#[test]
fn models_round_trip_including_custom() {
    for m in [
        Model::GigaChat2Lite,
        Model::GigaChat2Pro,
        Model::GigaChat2Max,
        Model::Custom("MyModel".to_string()),
    ] {
        let j = m.to_json();
        assert_eq!(Model::from_json(&j), Some(m));
    }
    // The catalogued wire names decode to the catalogue entries.
    assert_eq!(
        Model::from_json(&Json::Str("GigaChat-2".to_string())),
        Some(Model::GigaChat2Lite)
    );
    // A custom name that shadows a catalogue identifier cannot survive the
    // trip: it comes back as the catalogue entry.
    let shadow = Model::Custom("GigaChat-2".to_string());
    assert_eq!(Model::from_json(&shadow.to_json()), Some(Model::GigaChat2Lite));
}

#[test]
fn finish_reasons_round_trip() {
    for f in [
        FinishReason::Stop,
        FinishReason::Length,
        FinishReason::ContentFilter,
        FinishReason::FunctionCall,
        FinishReason::Blacklist,
        FinishReason::Error,
    ] {
        assert_eq!(FinishReason::from_json(&f.to_json()), Some(f));
    }
    assert_eq!(FinishReason::from_json(&Json::Str("paused".to_string())), None);
}

#[test]
fn usage_round_trips_and_reads_exact_numbers() {
    let u = Usage {
        prompt_tokens: 11,
        completion_tokens: 22,
        precached_prompt_tokens: 3,
        total_tokens: 36,
    };
    assert_eq!(Usage::from_json(&u.to_json()), Some(u));
    let wire = parse(
        r#"{"prompt_tokens":1,"completion_tokens":2,"precached_prompt_tokens":0,"total_tokens":3}"#,
    );
    assert_eq!(
        Usage::from_json(&wire),
        Some(Usage { prompt_tokens: 1, completion_tokens: 2, precached_prompt_tokens: 0, total_tokens: 3 })
    );
    // A count outside u32 is rejected.
    let big = parse(
        r#"{"prompt_tokens":5000000000,"completion_tokens":2,"precached_prompt_tokens":0,"total_tokens":3}"#,
    );
    assert_eq!(Usage::from_json(&big), None);
}

#[test]
fn messages_round_trip_every_role() {
    let samples = vec![
        Message::system("be brief".to_string()),
        Message::user("hello".to_string()),
        Message::Assistant { content: "hi".to_string(), function_call: None },
        Message::Assistant {
            content: "".to_string(),
            function_call: Some(FunctionCallResponse {
                name: FunctionName::new("add".to_string()),
                arguments: Json::Obj(vec![("a".to_string(), Json::Int(1))]),
            }),
        },
        Message::function(
            FunctionName::new("add".to_string()),
            &Json::Obj(vec![("sum".to_string(), Json::Int(3))]),
        ),
    ];
    for m in samples {
        let j = m.to_json();
        assert_eq!(Message::from_json(&j), Some(m));
    }
}

#[test]
fn message_decoding_rejects_unknown_roles() {
    assert_eq!(Message::from_json(&parse(r#"{"role":"robot","content":"x"}"#)), None);
    assert_eq!(Message::from_json(&parse(r#"{"content":"x"}"#)), None);
    let ok = Message::from_json(&parse(r#"{"role":"user","content":"x"}"#));
    assert_eq!(ok, Some(Message::user("x".to_string())));
}

#[test]
fn function_result_message_carries_rendered_json_text() {
    let m = Message::function(
        FunctionName::new("f".to_string()),
        &Json::Obj(vec![("ok".to_string(), Json::Bool(true))]),
    );
    match &m {
        Message::Function { content, .. } => assert_eq!(content, "{\"ok\":true}"),
        other => panic!("expected function message, got {:?}", other),
    }
}

#[test]
fn generation_request_encodes_all_fields() {
    let req = GenerationBuilder::new()
        .with_model(Model::GigaChat2Pro)
        .with_messages(vec![Message::user("hi".to_string())])
        .with_temperature("0.7".to_string())
        .with_max_tokens(128)
        .with_function_call(FunctionCall::Auto)
        .build();
    let j = req.to_json();
    assert_eq!(j.get("model"), Some(&Json::Str("GigaChat-2-Pro".to_string())));
    assert_eq!(j.get("function_call"), Some(&Json::Str("auto".to_string())));
    assert_eq!(j.get("temperature"), Some(&Json::Num("0.7".to_string())));
    assert_eq!(j.get("max_tokens"), Some(&Json::Int(128)));
    assert_eq!(j.get("stream"), Some(&Json::Bool(false)));
    // Unset knobs and the empty function list stay off the wire.
    assert_eq!(j.get("top_p"), None);
    assert_eq!(j.get("repetition_penalty"), None);
    assert_eq!(j.get("functions"), None);
    match j.get("messages") {
        Some(Json::Arr(items)) => assert_eq!(items.len(), 1),
        other => panic!("expected messages array, got {:?}", other),
    }
}

#[test]
fn default_request_is_max_model_no_messages() {
    let req: GenerationRequest = GenerationBuilder::new().build();
    assert_eq!(req.model, Model::GigaChat2Max);
    assert!(req.messages.is_empty());
    assert_eq!(req.function_call, FunctionCall::NoCall);
    assert!(!req.config.stream);
}

#[test]
fn generation_response_decodes_whole_shape() {
    let wire = parse(
        r#"{
            "choices":[{"index":0,"message":{"role":"assistant","content":"hi","function_call":null},"finish_reason":"stop"}],
            "created":1720000000,
            "model":"GigaChat-2-Max",
            "usage":{"prompt_tokens":4,"completion_tokens":2,"precached_prompt_tokens":0,"total_tokens":6}
        }"#,
    );
    let resp = GenerationResponse::from_json(&wire).unwrap();
    assert_eq!(resp.created, 1720000000);
    assert_eq!(resp.model, Model::GigaChat2Max);
    assert_eq!(resp.usage.total_tokens, 6);
    assert_eq!(resp.choices.len(), 1);
    assert_eq!(resp.choices[0].index, 0);
    assert_eq!(resp.choices[0].finish_reason, FinishReason::Stop);
    assert_eq!(resp.text(), "hi");
}

#[test]
fn response_text_is_empty_without_choices() {
    let resp = GenerationResponse {
        choices: Vec::new(),
        created: 0,
        model: Model::GigaChat2Max,
        usage: Usage::default(),
    };
    assert_eq!(resp.text(), "");
    let with_fn = GenerationResponse {
        choices: vec![Choice {
            index: 0,
            message: Message::function(FunctionName::new("f".to_string()), &Json::Null),
            finish_reason: FinishReason::FunctionCall,
        }],
        created: 0,
        model: Model::GigaChat2Max,
        usage: Usage::default(),
    };
    assert_eq!(with_fn.text(), "");
}

#[test]
fn user_function_round_trips() {
    let f = UserFunction {
        name: "add".to_string(),
        description: Some("adds".to_string()),
        parameters: Json::Obj(vec![("type".to_string(), Json::Str("object".to_string()))]),
        few_shot_examples: vec![Json::Obj(vec![("request".to_string(), Json::Str("1+1".to_string()))])],
        return_parameters: Json::Obj(vec![("type".to_string(), Json::Str("object".to_string()))]),
    };
    let j = f.to_json();
    assert_eq!(UserFunction::from_json(&j), Some(f));
}

#[test]
fn builder_collects_name_description_examples() {
    let b: FunctionBuilder<Json, Json> = FunctionBuilder::new("add".to_string())
        .with_description("adds numbers".to_string())
        .with_example(FunctionExample { request: "one plus one".to_string(), params: Json::Int(1) });
    assert_eq!(b.name, "add");
    assert_eq!(b.description, Some("adds numbers".to_string()));
    assert_eq!(b.examples.len(), 1);
}

#[test]
fn builtin_function_names() {
    assert_eq!(FunctionName::text2image().name(), "text2image");
    assert_eq!(FunctionName::get_file_content().name(), "get_file_content");
    assert_eq!(FunctionName::text2model3d().name(), "text2model3d");
}

#[test]
fn validation_outcome_is_told_by_the_errors_field() {
    let rejected = parse(
        r#"{"status":422,"message":"bad","json_ai_rules_version":"1","errors":[{"description":"d","schema_location":"$.x"}]}"#,
    );
    let fields = match &rejected {
        Json::Obj(f) => f,
        _ => unreachable!(),
    };
    let resp = function_check_response_from_fields(fields).unwrap();
    assert_eq!(resp.status, 422);
    match &resp.result {
        FunctionCheckResult::Rejected { errors } => {
            assert_eq!(errors.len(), 1);
            assert_eq!(errors[0].description, "d");
            assert_eq!(errors[0].schema_location, "$.x");
        }
        other => panic!("expected rejection, got {:?}", other),
    }
    match function_check_outcome(resp) {
        Err(FunctionError::BadFunction { errors }) => assert_eq!(errors.len(), 1),
        other => panic!("expected BadFunction, got {:?}", other),
    }

    let accepted = parse(r#"{"status":200,"message":"ok","json_ai_rules_version":"1"}"#);
    let fields = match &accepted {
        Json::Obj(f) => f,
        _ => unreachable!(),
    };
    let resp = function_check_response_from_fields(fields).unwrap();
    assert_eq!(resp.result, FunctionCheckResult::Accepted { warnings: Vec::new() });
    assert_eq!(function_check_outcome(resp), Ok(Vec::new()));
}

#[test]
fn diagnostics_decode_exactly() {
    let d = diag_from_json(&parse(r#"{"description":"x","schema_location":"y"}"#)).unwrap();
    assert_eq!(d, FunctionCheckDiagnostics { description: "x".to_string(), schema_location: "y".to_string() });
    assert_eq!(diag_from_json(&parse(r#"{"description":"x"}"#)), None);
}
