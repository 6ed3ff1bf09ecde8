use vstd::prelude::*;

use crate::json::{
    field_arr, field_usize, get_str_v, get_usize_v, jv_of, jv_of_fields, jv_of_seq, obj_get_v,
    Json, JsonV,
};

verus! {

/// The text-checking models: the bare conclusion, or the conclusion with the intervals the
/// model believes were generated.
#[derive(Debug, Clone, Copy, PartialEq, Eq, Structural)]
pub enum Model {
    GigaCheckClassification,
    GigaCheckDetection,
}

impl Default for Model {
    fn default() -> (r: Self)
        ensures
            r == Model::GigaCheckDetection,
    {
        Model::GigaCheckDetection
    }
}

pub open spec fn enc_check_model(m: Model) -> JsonV {
    match m {
        Model::GigaCheckClassification => JsonV::Str("GigaCheckClassification"@),
        Model::GigaCheckDetection => JsonV::Str("GigaCheckDetection"@),
    }
}

pub open spec fn dec_check_model(j: JsonV) -> Option<Model> {
    match j {
        JsonV::Str(s) => if s == "GigaCheckClassification"@ {
            Some(Model::GigaCheckClassification)
        } else if s == "GigaCheckDetection"@ {
            Some(Model::GigaCheckDetection)
        } else {
            None
        },
        _ => None,
    }
}

impl Model {
    /// Encodes this model as its wire string.
    pub fn to_json(&self) -> (j: Json)
        ensures
            j.deep_view() == enc_check_model(*self),
    {
        match self {
            Model::GigaCheckClassification => Json::Str(
                "GigaCheckClassification".to_owned(),
            ),
            Model::GigaCheckDetection => Json::Str("GigaCheckDetection".to_owned()),
        }
    }
}

/// A checking model decodes back to itself.
pub proof fn lemma_check_model_round_trip(m: Model)
    ensures
        dec_check_model(enc_check_model(m)) == Some(m),
{
    broadcast use vstd::string::group_string_axioms;

    reveal_strlit("GigaCheckClassification");
    reveal_strlit("GigaCheckDetection");
    assert("GigaCheckClassification"@.len() == 23);
    assert("GigaCheckDetection"@.len() == 18);
}

/// What the service concluded about a checked text.
#[derive(Debug, Clone, Copy, PartialEq, Eq, Structural)]
pub enum Category {
    /// The text was generated.
    Ai,
    /// The text was written by a person.
    Human,
    /// The text holds both generated and written parts.
    Mixed,
}

pub open spec fn enc_category(c: Category) -> JsonV {
    match c {
        Category::Ai => JsonV::Str("ai"@),
        Category::Human => JsonV::Str("human"@),
        Category::Mixed => JsonV::Str("mixed"@),
    }
}

pub open spec fn dec_category(j: JsonV) -> Option<Category> {
    match j {
        JsonV::Str(s) => if s == "ai"@ {
            Some(Category::Ai)
        } else if s == "human"@ {
            Some(Category::Human)
        } else if s == "mixed"@ {
            Some(Category::Mixed)
        } else {
            None
        },
        _ => None,
    }
}

impl Category {
    /// Decodes a wire string into a conclusion.
    pub fn from_json(j: &Json) -> (r: Option<Category>)
        ensures
            r == dec_category(j.deep_view()),
    {
        match j.as_str() {
            Some(s) => {
                if *s == "ai".to_owned() {
                    Some(Category::Ai)
                } else if *s == "human".to_owned() {
                    Some(Category::Human)
                } else if *s == "mixed".to_owned() {
                    Some(Category::Mixed)
                } else {
                    None
                }
            },
            None => None,
        }
    }
}

/// A conclusion decodes back to itself.
pub proof fn lemma_category_round_trip(c: Category)
    ensures
        dec_category(enc_category(c)) == Some(c),
{
    broadcast use vstd::string::group_string_axioms;

    reveal_strlit("ai");
    reveal_strlit("human");
    reveal_strlit("mixed");
    assert("ai"@.len() == 2);
    assert("human"@.len() == 5);
    assert("mixed"@.len() == 5);
    assert("human"@[0] == 'h');
    assert("mixed"@[0] == 'm');
}

/// One text-check request.
#[derive(Debug, PartialEq)]
pub struct CheckRequest {
    /// The text to check; the service asks for Russian text of at least
    /// twenty words.
    pub input: String,
    pub model: Model,
}

/// The mathematical shape of a [`CheckRequest`].
#[verifier::ext_equal]
pub struct CheckRequestV {
    pub input: Seq<char>,
    pub model: Model,
}

impl CheckRequest {
    pub open spec fn dv(&self) -> CheckRequestV {
        CheckRequestV { input: self.input@, model: self.model }
    }
}

pub open spec fn enc_check_request(r: CheckRequestV) -> JsonV {
    JsonV::Obj(seq![("input"@, JsonV::Str(r.input)), ("model"@, enc_check_model(r.model))])
}

pub open spec fn dec_check_request(j: JsonV) -> Option<CheckRequestV> {
    match j {
        JsonV::Obj(f) => {
            let model = match obj_get_v(f, "model"@) {
                Some(x) => dec_check_model(x),
                None => None,
            };
            match (get_str_v(f, "input"@), model) {
                (Some(i), Some(m)) => Some(CheckRequestV { input: i, model: m }),
                _ => None,
            }
        },
        _ => None,
    }
}

impl CheckRequest {
    /// Encodes this request as its wire object.
    pub fn to_json(&self) -> (j: Json)
        ensures
            j.deep_view() == enc_check_request(self.dv()),
    {
        broadcast use crate::json::lemma_jv_of_fields_is_map;

        let mut f: Vec<(String, Json)> = Vec::new();
        f.push(("input".to_owned(), Json::Str(self.input.clone())));
        f.push(("model".to_owned(), self.model.to_json()));
        let j = Json::Obj(f);
        proof {
            assert(jv_of_fields(f@) =~= enc_check_request(self.dv())->Obj_0);
        }
        j
    }
}

/// A check request decodes back to itself.
pub proof fn lemma_check_request_round_trip(r: CheckRequestV)
    ensures
        dec_check_request(enc_check_request(r)) == Some(r),
{
    broadcast use vstd::string::group_string_axioms;

    reveal_with_fuel(crate::json::obj_get_v, 4);
    reveal_strlit("input");
    reveal_strlit("model");
    assert("input"@.len() == 5);
    assert("model"@.len() == 5);
    assert("input"@[0] == 'i');
    assert("model"@[0] == 'm');
    lemma_check_model_round_trip(r.model);
}

/// The outcome of a text check: the category, the size of the text, and the intervals
/// believed generated, each a pair of character indexes.
#[derive(Debug, PartialEq)]
pub struct CheckResponse {
    pub category: Category,
    pub characters: usize,
    pub tokens: usize,
    pub ai_intervals: Vec<(usize, usize)>,
}

/// The mathematical shape of a [`CheckResponse`].
#[verifier::ext_equal]
pub struct CheckResponseV {
    pub category: Category,
    pub characters: usize,
    pub tokens: usize,
    pub ai_intervals: Seq<(usize, usize)>,
}

impl CheckResponse {
    pub open spec fn dv(&self) -> CheckResponseV {
        CheckResponseV {
            category: self.category,
            characters: self.characters,
            tokens: self.tokens,
            ai_intervals: self.ai_intervals@,
        }
    }
}

/// One interval on the wire: a two-element array of indexes.
pub open spec fn dec_interval(j: JsonV) -> Option<(usize, usize)> {
    match j {
        JsonV::Arr(items) => if items.len() == 2 {
            match (items[0], items[1]) {
                (JsonV::Int(a), JsonV::Int(b)) => if 0 <= a && a <= usize::MAX && 0 <= b && b
                    <= usize::MAX {
                    Some((a as usize, b as usize))
                } else {
                    None
                },
                _ => None,
            }
        } else {
            None
        },
        _ => None,
    }
}

/// Reads a whole interval array: all decode, or the array is rejected.
pub open spec fn dec_interval_seq(items: Seq<JsonV>) -> Option<Seq<(usize, usize)>>
    decreases items.len(),
{
    if items.len() == 0 {
        Some(Seq::empty())
    } else {
        match (dec_interval_seq(items.drop_last()), dec_interval(items.last())) {
            (Some(s), Some(iv)) => Some(s.push(iv)),
            _ => None,
        }
    }
}

proof fn lemma_dec_interval_seq_prefix_none(items: Seq<JsonV>, n: int)
    requires
        0 <= n <= items.len(),
        dec_interval_seq(items.take(n)) is None,
    ensures
        dec_interval_seq(items) is None,
    decreases items.len() - n,
{
    if n < items.len() {
        assert(items.take(n + 1).drop_last() =~= items.take(n));
        lemma_dec_interval_seq_prefix_none(items, n + 1);
    } else {
        assert(items.take(n) =~= items);
    }
}

proof fn lemma_dec_interval_seq_len(items: Seq<JsonV>)
    requires
        dec_interval_seq(items) is Some,
    ensures
        dec_interval_seq(items)->Some_0.len() == items.len(),
    decreases items.len(),
{
    if items.len() > 0 {
        lemma_dec_interval_seq_len(items.drop_last());
    }
}

/// Decodes one wire interval.
fn interval_from_json(j: &Json) -> (r: Option<(usize, usize)>)
    ensures
        r == dec_interval(j.deep_view()),
{
    let items = match j.as_arr() {
        Some(v) => v,
        None => {
            return None;
        },
    };
    if items.len() != 2 {
        proof {
            crate::json::lemma_jv_of_seq_len(items@);
        }
        return None;
    }
    proof {
        crate::json::lemma_jv_of_seq_index(items@, 0);
        crate::json::lemma_jv_of_seq_index(items@, 1);
    }
    let a = match items[0].as_int() {
        Some(x) => x,
        None => {
            return None;
        },
    };
    let b = match items[1].as_int() {
        Some(x) => x,
        None => {
            return None;
        },
    };
    if a >= 0 && (a as u64) <= (usize::MAX as u64) && b >= 0 && (b as u64) <= (usize::MAX as u64) {
        Some((a as usize, b as usize))
    } else {
        None
    }
}

pub open spec fn dec_check_response(j: JsonV) -> Option<CheckResponseV> {
    match j {
        JsonV::Obj(f) => {
            let category = match obj_get_v(f, "category"@) {
                Some(x) => dec_category(x),
                None => None,
            };
            let intervals = match crate::json::get_arr_v(f, "ai_intervals"@) {
                Some(items) => dec_interval_seq(items),
                None => None,
            };
            match (
                category,
                get_usize_v(f, "characters"@),
                get_usize_v(f, "tokens"@),
                intervals,
            ) {
                (Some(c), Some(ch), Some(t), Some(iv)) => Some(
                    CheckResponseV { category: c, characters: ch, tokens: t, ai_intervals: iv },
                ),
                _ => None,
            }
        },
        _ => None,
    }
}

impl CheckResponse {
    /// Decodes a wire object into a check outcome.
    pub fn from_json(j: &Json) -> (r: Option<CheckResponse>)
        ensures
            match r {
                Some(resp) => dec_check_response(j.deep_view()) == Some(resp.dv()),
                None => dec_check_response(j.deep_view()) is None,
            },
    {
        let fields = match j.as_obj() {
            Some(f) => f,
            None => {
                return None;
            },
        };
        let category = match crate::json::obj_get(fields, "category") {
            Some(x) => match Category::from_json(x) {
                Some(c) => c,
                None => {
                    return None;
                },
            },
            None => {
                return None;
            },
        };
        let characters = match field_usize(fields, "characters") {
            Some(c) => c,
            None => {
                return None;
            },
        };
        let tokens = match field_usize(fields, "tokens") {
            Some(t) => t,
            None => {
                return None;
            },
        };
        let ai_intervals = match field_arr(fields, "ai_intervals") {
            Some(items) => {
                let mut out: Vec<(usize, usize)> = Vec::new();
                let mut i: usize = 0;
                let r = loop_intervals(items, &mut out, &mut i);
                if !r {
                    return None;
                }
                out
            },
            None => {
                return None;
            },
        };
        let resp = CheckResponse { category, characters, tokens, ai_intervals };
        proof {
            assert(resp.dv().ai_intervals =~= dec_check_response(j.deep_view())->Some_0.ai_intervals);
        }
        Some(resp)
    }
}

/// Decodes every interval of the array into `out`; false when one is
/// malformed.
fn loop_intervals(items: &Vec<Json>, out: &mut Vec<(usize, usize)>, i: &mut usize) -> (ok: bool)
    requires
        old(out)@.len() == 0,
        *old(i) == 0,
    ensures
        ok ==> dec_interval_seq(jv_of_seq(items@)) == Some(final(out)@),
        !ok ==> dec_interval_seq(jv_of_seq(items@)) is None,
{
    while *i < items.len()
        invariant
            0 <= *i <= items@.len(),
            out@.len() == *i,
            dec_interval_seq(jv_of_seq(items@).take(*i as int)) == Some(out@),
        decreases items@.len() - *i,
    {
        let ghost pre = jv_of_seq(items@).take(*i as int);
        let ghost cur = jv_of_seq(items@).take(*i + 1);
        proof {
            crate::json::lemma_jv_of_seq_len(items@);
            crate::json::lemma_jv_of_seq_index(items@, *i as int);
            assert(cur.drop_last() =~= pre);
            assert(cur.last() == jv_of(items@[*i as int]));
        }
        match interval_from_json(&items[*i]) {
            Some(iv) => {
                out.push(iv);
            },
            None => {
                proof {
                    lemma_dec_interval_seq_prefix_none(jv_of_seq(items@), *i + 1);
                }
                return false;
            },
        }
        *i += 1;
    }
    proof {
        crate::json::lemma_jv_of_seq_len(items@);
        assert(jv_of_seq(items@).take(items@.len() as int) =~= jv_of_seq(items@));
    }
    true
}

/// The error taxonomy of text checking.
#[derive(Debug, PartialEq)]
pub enum CheckError {
    /// No text was given before finalizing the request.
    TextIsMissing,
    /// The given text is shorter than the service accepts.
    TextIsTooShort { length: usize },
    /// The exchange with the service failed.
    BadRequest { cause: crate::executor::RequestError },
}

/// Assembles a text-check request: the text at will, the model at will, the
/// defaults applied once at the end; finalizing without a text is the
/// `TextIsMissing` error.
#[derive(Debug, PartialEq)]
pub struct CheckBuilder {
    pub model: Model,
    pub text: Option<String>,
}

impl CheckBuilder {
    /// A builder with the default model and no text.
    pub fn new() -> (r: CheckBuilder)
        ensures
            r.model == Model::GigaCheckDetection,
            r.text is None,
    {
        CheckBuilder { model: Model::default(), text: None }
    }

    /// Sets the text to check.
    pub fn with_text(self, text: String) -> (r: Self)
        ensures
            r.model == self.model,
            r.text == Some(text),
    {
        CheckBuilder { text: Some(text), ..self }
    }

    /// Picks the model.
    pub fn with_model(self, model: Model) -> (r: Self)
        ensures
            r == (CheckBuilder { model, ..self }),
    {
        CheckBuilder { model, ..self }
    }

    /// Finalizes the request: succeeds exactly when a text was given.
    pub fn build(self) -> (r: Result<CheckRequest, CheckError>)
        ensures
            match self.text {
                Some(t) => r matches Ok(req) && req.input == t && req.model == self.model,
                None => r == Err::<CheckRequest, CheckError>(CheckError::TextIsMissing),
            },
    {
        match self.text {
            Some(input) => Ok(CheckRequest { input, model: self.model }),
            None => Err(CheckError::TextIsMissing),
        }
    }
}

pub open spec fn enc_interval(iv: (usize, usize)) -> JsonV {
    JsonV::Arr(seq![JsonV::Int(iv.0 as i64), JsonV::Int(iv.1 as i64)])
}

pub open spec fn enc_check_response(r: CheckResponseV) -> JsonV {
    JsonV::Obj(
        seq![
            ("category"@, enc_category(r.category)),
            ("characters"@, JsonV::Int(r.characters as i64)),
            ("tokens"@, JsonV::Int(r.tokens as i64)),
            (
                "ai_intervals"@,
                JsonV::Arr(Seq::new(r.ai_intervals.len(), |i: int| enc_interval(r.ai_intervals[i]))),
            ),
        ],
    )
}

/// Every interval array decodes back to itself while its indexes fit the
/// wire's signed integers.
proof fn lemma_interval_seq_round_trip(ivs: Seq<(usize, usize)>)
    requires
        forall|i: int| 0 <= i < ivs.len() ==> (#[trigger] ivs[i]).0 <= i64::MAX && ivs[i].1
            <= i64::MAX,
    ensures
        dec_interval_seq(Seq::new(ivs.len(), |i: int| enc_interval(ivs[i]))) == Some(ivs),
    decreases ivs.len(),
{
    let enc = Seq::new(ivs.len(), |i: int| enc_interval(ivs[i]));
    if ivs.len() > 0 {
        lemma_interval_seq_round_trip(ivs.drop_last());
        assert(enc.drop_last() =~= Seq::new(
            ivs.drop_last().len(),
            |i: int| enc_interval(ivs.drop_last()[i]),
        ));
        assert(dec_interval(enc.last()) == Some(ivs.last()));
        assert(dec_interval_seq(enc)->Some_0 =~= ivs);
    } else {
        assert(enc =~= Seq::<JsonV>::empty());
    }
}

/// A check outcome decodes back to itself while its sizes fit the wire's
/// signed integers.
pub proof fn lemma_check_response_round_trip(r: CheckResponseV)
    requires
        r.characters <= i64::MAX,
        r.tokens <= i64::MAX,
        forall|i: int| 0 <= i < r.ai_intervals.len() ==> (#[trigger] r.ai_intervals[i]).0
            <= i64::MAX && r.ai_intervals[i].1 <= i64::MAX,
    ensures
        dec_check_response(enc_check_response(r)) == Some(r),
{
    broadcast use vstd::string::group_string_axioms;

    reveal_with_fuel(crate::json::obj_get_v, 6);
    reveal_strlit("category");
    reveal_strlit("characters");
    reveal_strlit("tokens");
    reveal_strlit("ai_intervals");
    assert("category"@.len() == 8);
    assert("characters"@.len() == 10);
    assert("tokens"@.len() == 6);
    assert("ai_intervals"@.len() == 12);
    lemma_category_round_trip(r.category);
    lemma_interval_seq_round_trip(r.ai_intervals);
}


impl CheckResponse {
    /// The whole decode step over one success body: the bytes must parse as
    /// JSON and read as this shape; anything else fails with `ParseResponse`
    /// carrying the bytes.
    pub fn from_body(bytes: &[u8]) -> (r: Result<CheckResponse, crate::executor::RequestError>)
        ensures
            match r {
                Ok(resp) => crate::json::json_of_bytes(bytes@) matches Some(j) && dec_check_response(j)
                    == Some(resp.dv()),
                Err(e) => {
                    &&& (crate::json::json_of_bytes(bytes@) is None || dec_check_response(
                        crate::json::json_of_bytes(bytes@)->Some_0,
                    ) is None)
                    &&& e matches crate::executor::RequestError::ParseResponse { raw } && raw@
                        == bytes@
                },
            },
    {
        match crate::json::parse_json_bytes(bytes) {
            Some(j) => match CheckResponse::from_json(&j) {
                Some(resp) => Ok(resp),
                None => Err(
                    crate::executor::RequestError::ParseResponse {
                        raw: crate::json::copy_bytes(bytes),
                    },
                ),
            },
            None => Err(
                crate::executor::RequestError::ParseResponse { raw: crate::json::copy_bytes(bytes) },
            ),
        }
    }
}

} // verus!
