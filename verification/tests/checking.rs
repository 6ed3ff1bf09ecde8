use gigachat::check::Model as CheckModel;
use gigachat::check::{Category, CheckBuilder, CheckError, CheckRequest, CheckResponse};
use gigachat::embeddings::Model as EmbeddingModel;
use gigachat::embeddings::{EmbeddingRequest, EmbeddingResponse, Input};
use gigachat::json::{parse_json_bytes, Json};

#[test]
fn categories_decode_exactly() {
    assert_eq!(Category::from_json(&Json::Str("ai".to_string())), Some(Category::Ai));
    assert_eq!(Category::from_json(&Json::Str("human".to_string())), Some(Category::Human));
    assert_eq!(Category::from_json(&Json::Str("mixed".to_string())), Some(Category::Mixed));
    assert_eq!(Category::from_json(&Json::Str("robot".to_string())), None);
}

#[test]
fn check_request_encodes_input_and_model() {
    let req = CheckRequest { input: "тихий вечер".to_string(), model: CheckModel::GigaCheckClassification };
    let j = req.to_json();
    assert_eq!(j.get("input"), Some(&Json::Str("тихий вечер".to_string())));
    assert_eq!(j.get("model"), Some(&Json::Str("GigaCheckClassification".to_string())));
}

#[test]
fn check_response_decodes_with_intervals() {
    let wire = parse_json_bytes(
        br#"{"category":"mixed","characters":120,"tokens":30,"ai_intervals":[[0,10],[50,100]]}"#,
    )
    .unwrap();
    let resp = CheckResponse::from_json(&wire).unwrap();
    assert_eq!(resp.category, Category::Mixed);
    assert_eq!(resp.characters, 120);
    assert_eq!(resp.tokens, 30);
    assert_eq!(resp.ai_intervals, vec![(0, 10), (50, 100)]);
    // An interval that is not a two-element array is rejected.
    let bad = parse_json_bytes(
        br#"{"category":"ai","characters":1,"tokens":1,"ai_intervals":[[1,2,3]]}"#,
    )
    .unwrap();
    assert_eq!(CheckResponse::from_json(&bad), None);
}

#[test]
fn check_builder_demands_a_text() {
    let missing = CheckBuilder::new().build();
    assert_eq!(missing, Err(CheckError::TextIsMissing));
    let ok = CheckBuilder::new()
        .with_text("двадцать слов и ещё немного".to_string())
        .with_model(CheckModel::GigaCheckDetection)
        .build()
        .unwrap();
    assert_eq!(ok.model, CheckModel::GigaCheckDetection);
    assert_eq!(ok.input, "двадцать слов и ещё немного");
}

#[test]
fn embedding_models_round_trip_and_name_themselves() {
    for m in [
        EmbeddingModel::Embeddings,
        EmbeddingModel::EmbeddingsGigaR,
        EmbeddingModel::Custom("MyEmb".to_string()),
    ] {
        assert_eq!(EmbeddingModel::from_json(&m.to_json()), Some(m));
    }
    assert_eq!(EmbeddingModel::Embeddings.as_str(), "Embeddings");
    assert_eq!(EmbeddingModel::EmbeddingsGigaR.as_str(), "EmbeddingsGigaR");
    assert_eq!(EmbeddingModel::Custom("x".to_string()).as_str(), "x");
}

#[test]
fn embedding_request_encodes_both_input_shapes() {
    let one = EmbeddingRequest {
        model: EmbeddingModel::Embeddings,
        input: Input::from("hello".to_string()),
    };
    let j = one.to_json();
    assert_eq!(j.get("input"), Some(&Json::Str("hello".to_string())));
    assert_eq!(j.get("model"), Some(&Json::Str("Embeddings".to_string())));

    let many = EmbeddingRequest {
        model: EmbeddingModel::default(),
        input: Input::from(vec!["a".to_string(), "b".to_string()]),
    };
    match many.to_json().get("input") {
        Some(Json::Arr(items)) => {
            assert_eq!(items, &vec![Json::Str("a".to_string()), Json::Str("b".to_string())]);
        }
        other => panic!("expected an array input, got {:?}", other),
    }
}

#[test]
fn embedding_response_keeps_raw_number_nodes() {
    let wire = parse_json_bytes(
        br#"{"model":"EmbeddingsGigaR","data":[{"embedding":[0.25,-1,3.5],"index":0,"usage":{"prompt_tokens":7}}]}"#,
    )
    .unwrap();
    let resp = EmbeddingResponse::from_json(&wire).unwrap();
    assert_eq!(resp.model, EmbeddingModel::EmbeddingsGigaR);
    assert_eq!(resp.data.len(), 1);
    assert_eq!(resp.data[0].index, 0);
    assert_eq!(resp.data[0].usage.prompt_tokens, 7);
    assert_eq!(
        resp.data[0].embedding,
        vec![Json::Num("0.25".to_string()), Json::Int(-1), Json::Num("3.5".to_string())]
    );
}
