use vstd::prelude::*;

use crate::json::{
    field_arr, field_u32, field_u64, get_arr_v, get_u32_v, get_u64_v, jv_of, jv_of_fields,
    jv_of_seq, obj_get, obj_get_v, Json, JsonV,
};

verus! {

/// The catalogue of embedding models, with an escape hatch for names the
/// catalogue does not know yet.
#[derive(Debug, Clone, PartialEq, Eq)]
pub enum Model {
    /// The base model, context of 512 tokens.
    Embeddings,
    /// The stronger model, context of 4096 tokens.
    EmbeddingsGigaR,
    /// Any other model, named by its raw identifier.
    Custom(String),
}

/// The mathematical shape of an [`Model`].
#[verifier::ext_equal]
pub enum EmbeddingModelV {
    Embeddings,
    EmbeddingsGigaR,
    Custom(Seq<char>),
}

impl Model {
    pub open spec fn dv(&self) -> EmbeddingModelV {
        match self {
            Model::Embeddings => EmbeddingModelV::Embeddings,
            Model::EmbeddingsGigaR => EmbeddingModelV::EmbeddingsGigaR,
            Model::Custom(s) => EmbeddingModelV::Custom(s@),
        }
    }

    /// The model's raw identifier.
    pub fn as_str(&self) -> (r: &str)
        ensures
            r@ == enc_embedding_model(self.dv())->Str_0,
    {
        match self {
            Model::Embeddings => "Embeddings",
            Model::EmbeddingsGigaR => "EmbeddingsGigaR",
            Model::Custom(s) => s.as_str(),
        }
    }
}

impl Default for Model {
    fn default() -> (r: Self)
        ensures
            r == Model::EmbeddingsGigaR,
    {
        Model::EmbeddingsGigaR
    }
}

pub open spec fn enc_embedding_model(m: EmbeddingModelV) -> JsonV {
    match m {
        EmbeddingModelV::Embeddings => JsonV::Str("Embeddings"@),
        EmbeddingModelV::EmbeddingsGigaR => JsonV::Str("EmbeddingsGigaR"@),
        EmbeddingModelV::Custom(s) => JsonV::Str(s),
    }
}

pub open spec fn dec_embedding_model(j: JsonV) -> Option<EmbeddingModelV> {
    match j {
        JsonV::Str(s) => Some(
            if s == "Embeddings"@ {
                EmbeddingModelV::Embeddings
            } else if s == "EmbeddingsGigaR"@ {
                EmbeddingModelV::EmbeddingsGigaR
            } else {
                EmbeddingModelV::Custom(s)
            },
        ),
        _ => None,
    }
}

impl Model {
    /// Encodes this model as its wire string.
    pub fn to_json(&self) -> (j: Json)
        ensures
            j.deep_view() == enc_embedding_model(self.dv()),
    {
        match self {
            Model::Embeddings => Json::Str("Embeddings".to_owned()),
            Model::EmbeddingsGigaR => Json::Str("EmbeddingsGigaR".to_owned()),
            Model::Custom(s) => Json::Str(s.clone()),
        }
    }

    /// Decodes a wire string into a model.
    pub fn from_json(j: &Json) -> (r: Option<Model>)
        ensures
            match r {
                Some(m) => dec_embedding_model(j.deep_view()) == Some(m.dv()),
                None => dec_embedding_model(j.deep_view()) is None,
            },
    {
        match j.as_str() {
            Some(s) => {
                if *s == "Embeddings".to_owned() {
                    Some(Model::Embeddings)
                } else if *s == "EmbeddingsGigaR".to_owned() {
                    Some(Model::EmbeddingsGigaR)
                } else {
                    Some(Model::Custom(s.clone()))
                }
            },
            None => None,
        }
    }
}

/// True of a custom model name that collides with a catalogue identifier.
pub open spec fn custom_embedding_model_collides(m: EmbeddingModelV) -> bool {
    m matches EmbeddingModelV::Custom(s) && (s == "Embeddings"@ || s == "EmbeddingsGigaR"@)
}

/// An embedding model decodes back to itself, custom names that shadow a
/// catalogue identifier excepted.
pub proof fn lemma_embedding_model_round_trip(m: EmbeddingModelV)
    requires
        !custom_embedding_model_collides(m),
    ensures
        dec_embedding_model(enc_embedding_model(m)) == Some(m),
{
    broadcast use vstd::string::group_string_axioms;

    reveal_strlit("Embeddings");
    reveal_strlit("EmbeddingsGigaR");
    assert("Embeddings"@.len() == 10);
    assert("EmbeddingsGigaR"@.len() == 15);
}

/// What is embedded: one text or several.
#[derive(Debug, Clone, PartialEq, Eq)]
pub enum Input {
    One(String),
    Many(Vec<String>),
}

/// The mathematical shape of an [`Input`].
#[verifier::ext_equal]
pub enum InputV {
    One(Seq<char>),
    Many(Seq<Seq<char>>),
}

impl Input {
    pub open spec fn dv(&self) -> InputV {
        match self {
            Input::One(s) => InputV::One(s@),
            Input::Many(v) => InputV::Many(Seq::new(v@.len(), |i: int| v@[i]@)),
        }
    }
}

impl From<String> for Input {
    fn from(s: String) -> (r: Input) {
        Input::One(s)
    }
}

impl vstd::std_specs::convert::FromSpecImpl<String> for Input {
    open spec fn obeys_from_spec() -> bool {
        true
    }

    open spec fn from_spec(s: String) -> Input {
        Input::One(s)
    }
}

impl From<Vec<String>> for Input {
    fn from(v: Vec<String>) -> (r: Input) {
        Input::Many(v)
    }
}

impl vstd::std_specs::convert::FromSpecImpl<Vec<String>> for Input {
    open spec fn obeys_from_spec() -> bool {
        true
    }

    open spec fn from_spec(v: Vec<String>) -> Input {
        Input::Many(v)
    }
}

/// An input on the wire: the bare string, or the array of strings.
pub open spec fn enc_input(i: InputV) -> JsonV {
    match i {
        InputV::One(s) => JsonV::Str(s),
        InputV::Many(v) => JsonV::Arr(Seq::new(v.len(), |k: int| JsonV::Str(v[k]))),
    }
}

pub open spec fn dec_str_seq(items: Seq<JsonV>) -> Option<Seq<Seq<char>>>
    decreases items.len(),
{
    if items.len() == 0 {
        Some(Seq::empty())
    } else {
        match (dec_str_seq(items.drop_last()), items.last()) {
            (Some(s), JsonV::Str(t)) => Some(s.push(t)),
            _ => None,
        }
    }
}

pub open spec fn dec_input(j: JsonV) -> Option<InputV> {
    match j {
        JsonV::Str(s) => Some(InputV::One(s)),
        JsonV::Arr(items) => match dec_str_seq(items) {
            Some(v) => Some(InputV::Many(v)),
            None => None,
        },
        _ => None,
    }
}

impl Input {
    /// Encodes this input as its wire form.
    pub fn to_json(&self) -> (j: Json)
        ensures
            j.deep_view() == enc_input(self.dv()),
    {
        match self {
            Input::One(s) => Json::Str(s.clone()),
            Input::Many(v) => {
                let mut out: Vec<Json> = Vec::new();
                let mut i: usize = 0;
                while i < v.len()
                    invariant
                        0 <= i <= v@.len(),
                        out@.len() == i,
                        forall|k: int| 0 <= k < i ==> jv_of(#[trigger] out@[k]) == JsonV::Str(
                            v@[k]@,
                        ),
                    decreases v@.len() - i,
                {
                    out.push(Json::Str(v[i].clone()));
                    i += 1;
                }
                let j = Json::Arr(out);
                proof {
                    broadcast use crate::json::lemma_jv_of_seq_is_map;

                    assert(jv_of_seq(out@) =~= enc_input(self.dv())->Arr_0);
                }
                j
            },
        }
    }
}

/// An input decodes back to itself.
pub proof fn lemma_input_round_trip(i: InputV)
    ensures
        dec_input(enc_input(i)) == Some(i),
{
    match i {
        InputV::One(_) => {},
        InputV::Many(v) => {
            lemma_str_seq_round_trip(v);
        },
    }
}

proof fn lemma_str_seq_round_trip(v: Seq<Seq<char>>)
    ensures
        dec_str_seq(Seq::new(v.len(), |k: int| JsonV::Str(v[k]))) == Some(v),
    decreases v.len(),
{
    let enc = Seq::new(v.len(), |k: int| JsonV::Str(v[k]));
    if v.len() > 0 {
        lemma_str_seq_round_trip(v.drop_last());
        assert(enc.drop_last() =~= Seq::new(v.drop_last().len(), |k: int| JsonV::Str(v.drop_last()[k])));
        assert(dec_str_seq(enc)->Some_0 =~= v);
    } else {
        assert(enc =~= Seq::<JsonV>::empty());
    }
}

/// One embedding request.
#[derive(Debug, PartialEq)]
pub struct EmbeddingRequest {
    pub model: Model,
    pub input: Input,
}

/// The mathematical shape of an [`EmbeddingRequest`].
#[verifier::ext_equal]
pub struct EmbeddingRequestV {
    pub model: EmbeddingModelV,
    pub input: InputV,
}

impl EmbeddingRequest {
    pub open spec fn dv(&self) -> EmbeddingRequestV {
        EmbeddingRequestV { model: self.model.dv(), input: self.input.dv() }
    }
}

pub open spec fn enc_embedding_request(r: EmbeddingRequestV) -> JsonV {
    JsonV::Obj(seq![("model"@, enc_embedding_model(r.model)), ("input"@, enc_input(r.input))])
}

pub open spec fn dec_embedding_request(j: JsonV) -> Option<EmbeddingRequestV> {
    match j {
        JsonV::Obj(f) => {
            let model = match obj_get_v(f, "model"@) {
                Some(x) => dec_embedding_model(x),
                None => None,
            };
            let input = match obj_get_v(f, "input"@) {
                Some(x) => dec_input(x),
                None => None,
            };
            match (model, input) {
                (Some(m), Some(i)) => Some(EmbeddingRequestV { model: m, input: i }),
                _ => None,
            }
        },
        _ => None,
    }
}

impl EmbeddingRequest {
    /// Encodes this request as its wire object.
    pub fn to_json(&self) -> (j: Json)
        ensures
            j.deep_view() == enc_embedding_request(self.dv()),
    {
        broadcast use crate::json::lemma_jv_of_fields_is_map;

        let mut f: Vec<(String, Json)> = Vec::new();
        f.push(("model".to_owned(), self.model.to_json()));
        f.push(("input".to_owned(), self.input.to_json()));
        let j = Json::Obj(f);
        proof {
            assert(jv_of_fields(f@) =~= enc_embedding_request(self.dv())->Obj_0);
        }
        j
    }
}

/// An embedding request decodes back to itself, custom model names that
/// shadow a catalogue identifier excepted.
pub proof fn lemma_embedding_request_round_trip(r: EmbeddingRequestV)
    requires
        !custom_embedding_model_collides(r.model),
    ensures
        dec_embedding_request(enc_embedding_request(r)) == Some(r),
{
    broadcast use vstd::string::group_string_axioms;

    reveal_with_fuel(crate::json::obj_get_v, 4);
    reveal_strlit("model");
    reveal_strlit("input");
    assert("model"@.len() == 5);
    assert("input"@.len() == 5);
    assert("model"@[0] == 'm');
    assert("input"@[0] == 'i');
    lemma_embedding_model_round_trip(r.model);
    lemma_input_round_trip(r.input);
}

/// Token accounting for one embedded text.
#[derive(Debug, Clone, Copy, PartialEq, Eq, Structural)]
pub struct Usage {
    pub prompt_tokens: u32,
}

pub open spec fn dec_embedding_usage(j: JsonV) -> Option<Usage> {
    match j {
        JsonV::Obj(f) => match get_u32_v(f, "prompt_tokens"@) {
            Some(p) => Some(Usage { prompt_tokens: p }),
            None => None,
        },
        _ => None,
    }
}

/// One embedded text's vector. The vector's entries are carried as the raw
/// number nodes the wire held; the caller interprets them at whatever
/// precision it wants.
#[derive(Debug, PartialEq)]
pub struct EmbeddingResponseItem {
    pub embedding: Vec<Json>,
    pub index: u64,
    pub usage: Usage,
}

/// The mathematical shape of an [`EmbeddingResponseItem`].
#[verifier::ext_equal]
pub struct EmbeddingResponseItemV {
    pub embedding: Seq<JsonV>,
    pub index: u64,
    pub usage: Usage,
}

impl EmbeddingResponseItem {
    pub open spec fn dv(&self) -> EmbeddingResponseItemV {
        EmbeddingResponseItemV {
            embedding: jv_of_seq(self.embedding@),
            index: self.index,
            usage: self.usage,
        }
    }
}

pub open spec fn dec_embedding_item(j: JsonV) -> Option<EmbeddingResponseItemV> {
    match j {
        JsonV::Obj(f) => {
            let usage = match obj_get_v(f, "usage"@) {
                Some(x) => dec_embedding_usage(x),
                None => None,
            };
            match (get_arr_v(f, "embedding"@), get_u64_v(f, "index"@), usage) {
                (Some(e), Some(i), Some(u)) => Some(
                    EmbeddingResponseItemV { embedding: e, index: i, usage: u },
                ),
                _ => None,
            }
        },
        _ => None,
    }
}

impl EmbeddingResponseItem {
    /// Decodes one embedded text's entry.
    pub fn from_json(j: &Json) -> (r: Option<EmbeddingResponseItem>)
        ensures
            match r {
                Some(it) => dec_embedding_item(j.deep_view()) == Some(it.dv()),
                None => dec_embedding_item(j.deep_view()) is None,
            },
    {
        let fields = match j.as_obj() {
            Some(f) => f,
            None => {
                return None;
            },
        };
        let embedding = match field_arr(fields, "embedding") {
            Some(items) => {
                let mut out: Vec<Json> = Vec::new();
                let mut i: usize = 0;
                while i < items.len()
                    invariant
                        0 <= i <= items@.len(),
                        out@.len() == i,
                        forall|k: int| 0 <= k < i ==> jv_of(#[trigger] out@[k]) == jv_of(
                            items@[k],
                        ),
                    decreases items@.len() - i,
                {
                    out.push(items[i].deep_clone());
                    i += 1;
                }
                proof {
                    crate::json::lemma_jv_of_seq_pointwise(out@, items@);
                }
                out
            },
            None => {
                return None;
            },
        };
        let index = match field_u64(fields, "index") {
            Some(i) => i,
            None => {
                return None;
            },
        };
        let usage = match obj_get(fields, "usage") {
            Some(x) => match x.as_obj() {
                Some(uf) => match field_u32(uf, "prompt_tokens") {
                    Some(p) => Usage { prompt_tokens: p },
                    None => {
                        return None;
                    },
                },
                None => {
                    return None;
                },
            },
            None => {
                return None;
            },
        };
        Some(EmbeddingResponseItem { embedding, index, usage })
    }
}

/// Reads a whole array of embedded texts: all decode, or the array is
/// rejected.
pub open spec fn dec_embedding_item_seq(items: Seq<JsonV>) -> Option<Seq<EmbeddingResponseItemV>>
    decreases items.len(),
{
    if items.len() == 0 {
        Some(Seq::empty())
    } else {
        match (dec_embedding_item_seq(items.drop_last()), dec_embedding_item(items.last())) {
            (Some(s), Some(it)) => Some(s.push(it)),
            _ => None,
        }
    }
}

proof fn lemma_dec_embedding_item_seq_prefix_none(items: Seq<JsonV>, n: int)
    requires
        0 <= n <= items.len(),
        dec_embedding_item_seq(items.take(n)) is None,
    ensures
        dec_embedding_item_seq(items) is None,
    decreases items.len() - n,
{
    if n < items.len() {
        assert(items.take(n + 1).drop_last() =~= items.take(n));
        lemma_dec_embedding_item_seq_prefix_none(items, n + 1);
    } else {
        assert(items.take(n) =~= items);
    }
}

proof fn lemma_dec_embedding_item_seq_len(items: Seq<JsonV>)
    requires
        dec_embedding_item_seq(items) is Some,
    ensures
        dec_embedding_item_seq(items)->Some_0.len() == items.len(),
    decreases items.len(),
{
    if items.len() > 0 {
        lemma_dec_embedding_item_seq_len(items.drop_last());
    }
}

/// One whole embeddings response.
#[derive(Debug, PartialEq)]
pub struct EmbeddingResponse {
    pub model: Model,
    pub data: Vec<EmbeddingResponseItem>,
}

/// The mathematical shape of an [`EmbeddingResponse`].
#[verifier::ext_equal]
pub struct EmbeddingResponseV {
    pub model: EmbeddingModelV,
    pub data: Seq<EmbeddingResponseItemV>,
}

impl EmbeddingResponse {
    pub open spec fn dv(&self) -> EmbeddingResponseV {
        EmbeddingResponseV {
            model: self.model.dv(),
            data: Seq::new(self.data@.len(), |i: int| self.data@[i].dv()),
        }
    }
}

pub open spec fn dec_embedding_response(j: JsonV) -> Option<EmbeddingResponseV> {
    match j {
        JsonV::Obj(f) => {
            let model = match obj_get_v(f, "model"@) {
                Some(x) => dec_embedding_model(x),
                None => None,
            };
            let data = match get_arr_v(f, "data"@) {
                Some(items) => dec_embedding_item_seq(items),
                None => None,
            };
            match (model, data) {
                (Some(m), Some(d)) => Some(EmbeddingResponseV { model: m, data: d }),
                _ => None,
            }
        },
        _ => None,
    }
}

impl EmbeddingResponse {
    /// Decodes a wire object into an embeddings response.
    #[verifier::loop_isolation(false)]
    pub fn from_json(j: &Json) -> (r: Option<EmbeddingResponse>)
        ensures
            match r {
                Some(resp) => dec_embedding_response(j.deep_view()) == Some(resp.dv()),
                None => dec_embedding_response(j.deep_view()) is None,
            },
    {
        let fields = match j.as_obj() {
            Some(f) => f,
            None => {
                return None;
            },
        };
        let model = match obj_get(fields, "model") {
            Some(x) => match Model::from_json(x) {
                Some(m) => m,
                None => {
                    return None;
                },
            },
            None => {
                return None;
            },
        };
        let data = match field_arr(fields, "data") {
            Some(items) => {
                let mut out: Vec<EmbeddingResponseItem> = Vec::new();
                let mut i: usize = 0;
                while i < items.len()
                    invariant
                        0 <= i <= items@.len(),
                        out@.len() == i,
                        dec_embedding_item_seq(jv_of_seq(items@).take(i as int)) is Some,
                        forall|k: int| 0 <= k < i ==> (#[trigger] out@[k]).dv()
                            == dec_embedding_item_seq(jv_of_seq(items@).take(i as int))->Some_0[k],
                    decreases items@.len() - i,
                {
                    let ghost pre = jv_of_seq(items@).take(i as int);
                    let ghost cur = jv_of_seq(items@).take(i + 1);
                    proof {
                        crate::json::lemma_jv_of_seq_len(items@);
                        crate::json::lemma_jv_of_seq_index(items@, i as int);
                        assert(cur.drop_last() =~= pre);
                        assert(cur.last() == jv_of(items@[i as int]));
                        lemma_dec_embedding_item_seq_len(pre);
                    }
                    match EmbeddingResponseItem::from_json(&items[i]) {
                        Some(it) => {
                            out.push(it);
                        },
                        None => {
                            proof {
                                lemma_dec_embedding_item_seq_prefix_none(jv_of_seq(items@), i + 1);
                            }
                            return None;
                        },
                    }
                    i += 1;
                }
                proof {
                    crate::json::lemma_jv_of_seq_len(items@);
                    assert(jv_of_seq(items@).take(items@.len() as int) =~= jv_of_seq(items@));
                    lemma_dec_embedding_item_seq_len(jv_of_seq(items@));
                }
                out
            },
            None => {
                return None;
            },
        };
        let resp = EmbeddingResponse { model, data };
        proof {
            assert(resp.dv().data =~= dec_embedding_response(j.deep_view())->Some_0.data);
        }
        Some(resp)
    }
}

/// The error taxonomy of the embeddings call.
#[derive(Debug, PartialEq)]
pub enum EmbeddingError {
    /// The exchange with the service failed.
    RequestFailed { cause: crate::executor::RequestError },
}

pub open spec fn enc_embedding_usage(u: Usage) -> JsonV {
    JsonV::Obj(seq![("prompt_tokens"@, JsonV::Int(u.prompt_tokens as i64))])
}

pub open spec fn enc_embedding_item(it: EmbeddingResponseItemV) -> JsonV {
    JsonV::Obj(
        seq![
            ("embedding"@, JsonV::Arr(it.embedding)),
            ("index"@, JsonV::Int(it.index as i64)),
            ("usage"@, enc_embedding_usage(it.usage)),
        ],
    )
}

/// One embedded text's entry decodes back to itself while its index fits the
/// wire's signed integers.
pub proof fn lemma_embedding_item_round_trip(it: EmbeddingResponseItemV)
    requires
        it.index <= i64::MAX,
    ensures
        dec_embedding_item(enc_embedding_item(it)) == Some(it),
{
    broadcast use vstd::string::group_string_axioms;

    reveal_with_fuel(crate::json::obj_get_v, 5);
    reveal_strlit("embedding");
    reveal_strlit("index");
    reveal_strlit("usage");
    reveal_strlit("prompt_tokens");
    assert("embedding"@.len() == 9);
    assert("index"@.len() == 5);
    assert("usage"@.len() == 5);
    assert("prompt_tokens"@.len() == 13);
    assert("index"@[0] == 'i');
    assert("usage"@[0] == 'u');
}

pub open spec fn enc_embedding_response(r: EmbeddingResponseV) -> JsonV {
    JsonV::Obj(
        seq![
            ("model"@, enc_embedding_model(r.model)),
            ("data"@, JsonV::Arr(Seq::new(r.data.len(), |i: int| enc_embedding_item(r.data[i])))),
        ],
    )
}

proof fn lemma_embedding_item_seq_round_trip(data: Seq<EmbeddingResponseItemV>)
    requires
        forall|i: int| 0 <= i < data.len() ==> (#[trigger] data[i]).index <= i64::MAX,
    ensures
        dec_embedding_item_seq(Seq::new(data.len(), |i: int| enc_embedding_item(data[i]))) == Some(
            data,
        ),
    decreases data.len(),
{
    let enc = Seq::new(data.len(), |i: int| enc_embedding_item(data[i]));
    if data.len() > 0 {
        lemma_embedding_item_seq_round_trip(data.drop_last());
        lemma_embedding_item_round_trip(data.last());
        assert(enc.drop_last() =~= Seq::new(
            data.drop_last().len(),
            |i: int| enc_embedding_item(data.drop_last()[i]),
        ));
        assert(dec_embedding_item_seq(enc)->Some_0 =~= data);
    } else {
        assert(enc =~= Seq::<JsonV>::empty());
    }
}

/// An embeddings response decodes back to itself, custom model names that
/// shadow a catalogue identifier excepted, while the indexes fit the wire's
/// signed integers.
pub proof fn lemma_embedding_response_round_trip(r: EmbeddingResponseV)
    requires
        !custom_embedding_model_collides(r.model),
        forall|i: int| 0 <= i < r.data.len() ==> (#[trigger] r.data[i]).index <= i64::MAX,
    ensures
        dec_embedding_response(enc_embedding_response(r)) == Some(r),
{
    broadcast use vstd::string::group_string_axioms;

    reveal_with_fuel(crate::json::obj_get_v, 4);
    reveal_strlit("model");
    reveal_strlit("data");
    assert("model"@.len() == 5);
    assert("data"@.len() == 4);
    lemma_embedding_model_round_trip(r.model);
    lemma_embedding_item_seq_round_trip(r.data);
}


impl EmbeddingResponse {
    /// The whole decode step over one success body: the bytes must parse as
    /// JSON and read as this shape; anything else fails with `ParseResponse`
    /// carrying the bytes.
    pub fn from_body(bytes: &[u8]) -> (r: Result<EmbeddingResponse, crate::executor::RequestError>)
        ensures
            match r {
                Ok(resp) => crate::json::json_of_bytes(bytes@) matches Some(j) && dec_embedding_response(j)
                    == Some(resp.dv()),
                Err(e) => {
                    &&& (crate::json::json_of_bytes(bytes@) is None || dec_embedding_response(
                        crate::json::json_of_bytes(bytes@)->Some_0,
                    ) is None)
                    &&& e matches crate::executor::RequestError::ParseResponse { raw } && raw@
                        == bytes@
                },
            },
    {
        match crate::json::parse_json_bytes(bytes) {
            Some(j) => match EmbeddingResponse::from_json(&j) {
                Some(resp) => Ok(resp),
                None => Err(
                    crate::executor::RequestError::ParseResponse {
                        raw: crate::json::copy_bytes(bytes),
                    },
                ),
            },
            None => Err(
                crate::executor::RequestError::ParseResponse { raw: crate::json::copy_bytes(bytes) },
            ),
        }
    }
}

} // verus!
