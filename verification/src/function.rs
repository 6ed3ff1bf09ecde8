use vstd::prelude::*;

use crate::json::{
    get_arr_v, get_opt_str_v, get_str_v, get_u16_v, field_arr, field_str, field_u16, jv_of,
    jv_of_fields, jv_of_seq, obj_get, obj_get_v, Json, JsonV,
};

verus! {

/// The name of a callable function, as the service addresses it.
#[derive(Debug, Clone, PartialEq, Eq)]
pub struct FunctionName {
    name: String,
}

impl FunctionName {
    /// The name's text.
    pub closed spec fn dv(&self) -> Seq<char> {
        self.name@
    }

    /// A function name from its text.
    pub fn new(name: String) -> (r: FunctionName)
        ensures
            r.dv() == name@,
    {
        FunctionName { name }
    }

    /// The name's text.
    pub fn name(&self) -> (r: &str)
        ensures
            r@ == self.dv(),
    {
        self.name.as_str()
    }

    /// The built-in image-generation function.
    pub fn text2image() -> (r: FunctionName)
        ensures
            r.dv() == "text2image"@,
    {
        FunctionName { name: "text2image".to_owned() }
    }

    /// The built-in file-content function.
    pub fn get_file_content() -> (r: FunctionName)
        ensures
            r.dv() == "get_file_content"@,
    {
        FunctionName { name: "get_file_content".to_owned() }
    }

    /// The built-in 3D-model-generation function.
    pub fn text2model3d() -> (r: FunctionName)
        ensures
            r.dv() == "text2model3d"@,
    {
        FunctionName { name: "text2model3d".to_owned() }
    }
}

/// A function name on the wire: an object with one `name` field.
pub open spec fn enc_function_name(n: Seq<char>) -> JsonV {
    JsonV::Obj(seq![("name"@, JsonV::Str(n))])
}

/// Reads a function name off the wire.
pub open spec fn dec_function_name(j: JsonV) -> Option<Seq<char>> {
    match j {
        JsonV::Obj(f) => get_str_v(f, "name"@),
        _ => None,
    }
}

impl FunctionName {
    /// Encodes this name as its wire object.
    pub fn to_json(&self) -> (j: Json)
        ensures
            j.deep_view() == enc_function_name(self.dv()),
    {
        broadcast use crate::json::lemma_jv_of_fields_is_map;

        let mut f: Vec<(String, Json)> = Vec::new();
        f.push(("name".to_owned(), Json::Str(self.name.clone())));
        let j = Json::Obj(f);
        proof {
            assert(jv_of_fields(f@) =~= seq![("name"@, JsonV::Str(self.name@))]);
        }
        j
    }

    /// Decodes a wire object into a function name.
    pub fn from_json(j: &Json) -> (r: Option<FunctionName>)
        ensures
            match r {
                Some(n) => dec_function_name(j.deep_view()) == Some(n.dv()),
                None => dec_function_name(j.deep_view()) is None,
            },
    {
        match j.as_obj() {
            Some(fields) => match field_str(fields, "name") {
                Some(s) => Some(FunctionName { name: s }),
                None => None,
            },
            None => None,
        }
    }
}

/// A function name decodes back to itself.
pub proof fn lemma_function_name_round_trip(n: Seq<char>)
    ensures
        dec_function_name(enc_function_name(n)) == Some(n),
{
}

/// A user-defined function the model may call: its JSON schemas arrive as
/// trees the caller prepared.
#[derive(Debug, PartialEq)]
pub struct UserFunction {
    pub name: String,
    pub description: Option<String>,
    pub parameters: Json,
    pub few_shot_examples: Vec<Json>,
    pub return_parameters: Json,
}

/// The mathematical shape of a [`UserFunction`].
#[verifier::ext_equal]
pub struct UserFunctionV {
    pub name: Seq<char>,
    pub description: Option<Seq<char>>,
    pub parameters: JsonV,
    pub few_shot_examples: Seq<JsonV>,
    pub return_parameters: JsonV,
}

impl UserFunction {
    pub open spec fn dv(&self) -> UserFunctionV {
        UserFunctionV {
            name: self.name@,
            description: match self.description {
                Some(d) => Some(d@),
                None => None,
            },
            parameters: jv_of(self.parameters),
            few_shot_examples: jv_of_seq(self.few_shot_examples@),
            return_parameters: jv_of(self.return_parameters),
        }
    }

    /// The function's name.
    pub fn name(&self) -> (r: &str)
        ensures
            r@ == self.dv().name,
    {
        self.name.as_str()
    }

    /// The function's name, as the request types address it.
    pub fn function_name(&self) -> (r: FunctionName)
        ensures
            r.dv() == self.dv().name,
    {
        FunctionName { name: self.name.clone() }
    }
}

/// A user function on the wire: `description` is always present, `null` when
/// unset.
pub open spec fn enc_user_function(u: UserFunctionV) -> JsonV {
    JsonV::Obj(
        seq![
            ("name"@, JsonV::Str(u.name)),
            (
                "description"@,
                match u.description {
                    Some(d) => JsonV::Str(d),
                    None => JsonV::Null,
                },
            ),
            ("parameters"@, u.parameters),
            ("few_shot_examples"@, JsonV::Arr(u.few_shot_examples)),
            ("return_parameters"@, u.return_parameters),
        ],
    )
}

/// Reads a user function off the wire: the three schema fields must be
/// present; a missing or `null` description reads as unset.
pub open spec fn dec_user_function(j: JsonV) -> Option<UserFunctionV> {
    match j {
        JsonV::Obj(f) => match (
            get_str_v(f, "name"@),
            get_opt_str_v(f, "description"@),
            obj_get_v(f, "parameters"@),
            get_arr_v(f, "few_shot_examples"@),
            obj_get_v(f, "return_parameters"@),
        ) {
            (Some(n), Some(d), Some(p), Some(ex), Some(rp)) => Some(
                UserFunctionV {
                    name: n,
                    description: d,
                    parameters: p,
                    few_shot_examples: ex,
                    return_parameters: rp,
                },
            ),
            _ => None,
        },
        _ => None,
    }
}

impl UserFunction {
    /// Encodes this function as its wire object.
    pub fn to_json(&self) -> (j: Json)
        ensures
            j.deep_view() == enc_user_function(self.dv()),
    {
        broadcast use crate::json::lemma_jv_of_fields_is_map;

        let mut f: Vec<(String, Json)> = Vec::new();
        f.push(("name".to_owned(), Json::Str(self.name.clone())));
        let desc = match &self.description {
            Some(d) => Json::Str(d.clone()),
            None => Json::Null,
        };
        f.push(("description".to_owned(), desc));
        f.push(("parameters".to_owned(), self.parameters.deep_clone()));
        let mut ex: Vec<Json> = Vec::new();
        let mut i: usize = 0;
        while i < self.few_shot_examples.len()
            invariant
                0 <= i <= self.few_shot_examples.len(),
                ex@.len() == i,
                forall|k: int| 0 <= k < i ==> jv_of(#[trigger] ex@[k]) == jv_of(
                    self.few_shot_examples@[k],
                ),
            decreases self.few_shot_examples.len() - i,
        {
            ex.push(self.few_shot_examples[i].deep_clone());
            i += 1;
        }
        proof {
            crate::json::lemma_jv_of_seq_pointwise(ex@, self.few_shot_examples@);
        }
        f.push(("few_shot_examples".to_owned(), Json::Arr(ex)));
        f.push(("return_parameters".to_owned(), self.return_parameters.deep_clone()));
        let j = Json::Obj(f);
        proof {
            assert(jv_of_fields(f@) =~= enc_user_function(self.dv())->Obj_0);
        }
        j
    }

    /// Decodes a wire object into a user function.
    pub fn from_json(j: &Json) -> (r: Option<UserFunction>)
        ensures
            match r {
                Some(u) => dec_user_function(j.deep_view()) == Some(u.dv()),
                None => dec_user_function(j.deep_view()) is None,
            },
    {
        let fields = match j.as_obj() {
            Some(f) => f,
            None => {
                return None;
            },
        };
        let name = match field_str(fields, "name") {
            Some(n) => n,
            None => {
                return None;
            },
        };
        let description = match crate::json::field_opt_str(fields, "description") {
            Some(d) => d,
            None => {
                return None;
            },
        };
        let parameters = match obj_get(fields, "parameters") {
            Some(p) => p.deep_clone(),
            None => {
                return None;
            },
        };
        let examples = match field_arr(fields, "few_shot_examples") {
            Some(a) => {
                let mut ex: Vec<Json> = Vec::new();
                let mut i: usize = 0;
                while i < a.len()
                    invariant
                        0 <= i <= a.len(),
                        ex@.len() == i,
                        forall|k: int| 0 <= k < i ==> jv_of(#[trigger] ex@[k]) == jv_of(a@[k]),
                    decreases a.len() - i,
                {
                    ex.push(a[i].deep_clone());
                    i += 1;
                }
                proof {
                    crate::json::lemma_jv_of_seq_pointwise(ex@, a@);
                }
                ex
            },
            None => {
                return None;
            },
        };
        let return_parameters = match obj_get(fields, "return_parameters") {
            Some(p) => p.deep_clone(),
            None => {
                return None;
            },
        };
        Some(
            UserFunction {
                name,
                description,
                parameters,
                few_shot_examples: examples,
                return_parameters,
            },
        )
    }
}

/// A user function decodes back to itself.
pub proof fn lemma_user_function_round_trip(u: UserFunctionV)
    ensures
        dec_user_function(enc_user_function(u)) == Some(u),
{
    broadcast use vstd::string::group_string_axioms;

    reveal_with_fuel(crate::json::obj_get_v, 8);
    reveal_strlit("name");
    reveal_strlit("description");
    reveal_strlit("parameters");
    reveal_strlit("few_shot_examples");
    reveal_strlit("return_parameters");
    assert("name"@.len() == 4);
    assert("description"@.len() == 11);
    assert("parameters"@.len() == 10);
    assert("few_shot_examples"@.len() == 17);
    assert("return_parameters"@.len() == 17);
    assert("few_shot_examples"@[0] == 'f');
    assert("return_parameters"@[0] == 'r');
}

/// One worked example attached to a user function: the natural-language
/// request and the matching argument values.
#[derive(Debug, PartialEq)]
pub struct FunctionExample<I> {
    pub request: String,
    pub params: I,
}

/// The marker of the schema dialect the service accepts; the layer that
/// generates JSON schemas gives it meaning.
pub struct SberSchema;

/// What a function definition exposes to generic code: its argument and
/// output types.
pub trait FunctionExt {
    /// The type of the function's arguments.
    type Arguments;

    /// The type of the function's output.
    type Output;
}

/// Assembles a user function incrementally: name first, description and
/// worked examples at will; the schema trees are supplied at the final step.
pub struct FunctionBuilder<I, O, S = SberSchema> {
    pub name: String,
    pub description: Option<String>,
    pub examples: Vec<FunctionExample<I>>,
    pub output: core::marker::PhantomData<O>,
    pub schema_generator: core::marker::PhantomData<S>,
}

impl<I, O, S> FunctionExt for FunctionBuilder<I, O, S> {
    type Arguments = I;

    type Output = O;
}

impl<I, O, S> FunctionBuilder<I, O, S> {
    /// A builder for a function of the given name.
    pub fn new(name: String) -> (r: Self)
        ensures
            r.name@ == name@,
            r.description is None,
            r.examples@.len() == 0,
    {
        FunctionBuilder {
            name,
            description: None,
            examples: Vec::new(),
            output: core::marker::PhantomData,
            schema_generator: core::marker::PhantomData,
        }
    }

    /// Sets the function's description.
    pub fn with_description(self, description: String) -> (r: Self)
        ensures
            r.name == self.name,
            r.description matches Some(d) && d@ == description@,
            r.examples == self.examples,
    {
        FunctionBuilder { description: Some(description), ..self }
    }

    /// Adds one worked example.
    pub fn with_example(self, example: FunctionExample<I>) -> (r: Self)
        ensures
            r.name == self.name,
            r.description == self.description,
            r.examples@ == self.examples@.push(example),
    {
        let mut b = self;
        b.examples.push(example);
        b
    }
}

/// One diagnostic the validation endpoint reports about a function schema.
#[derive(Debug, Clone, PartialEq)]
pub struct FunctionCheckDiagnostics {
    pub description: String,
    pub schema_location: String,
}

/// The mathematical shape of a [`FunctionCheckDiagnostics`].
#[verifier::ext_equal]
pub struct DiagV {
    pub description: Seq<char>,
    pub schema_location: Seq<char>,
}

impl FunctionCheckDiagnostics {
    pub open spec fn dv(&self) -> DiagV {
        DiagV { description: self.description@, schema_location: self.schema_location@ }
    }
}

pub open spec fn enc_diag(d: DiagV) -> JsonV {
    JsonV::Obj(
        seq![
            ("description"@, JsonV::Str(d.description)),
            ("schema_location"@, JsonV::Str(d.schema_location)),
        ],
    )
}

pub open spec fn dec_diag(j: JsonV) -> Option<DiagV> {
    match j {
        JsonV::Obj(f) => match (get_str_v(f, "description"@), get_str_v(f, "schema_location"@)) {
            (Some(d), Some(l)) => Some(DiagV { description: d, schema_location: l }),
            _ => None,
        },
        _ => None,
    }
}

/// Reads a whole array of diagnostics: all decode, or the array is rejected.
pub open spec fn dec_diag_seq(items: Seq<JsonV>) -> Option<Seq<DiagV>>
    decreases items.len(),
{
    if items.len() == 0 {
        Some(Seq::empty())
    } else {
        match (dec_diag_seq(items.drop_last()), dec_diag(items.last())) {
            (Some(s), Some(d)) => Some(s.push(d)),
            _ => None,
        }
    }
}

/// Decodes one wire diagnostic.
pub fn diag_from_json(j: &Json) -> (r: Option<FunctionCheckDiagnostics>)
    ensures
        match r {
            Some(d) => dec_diag(j.deep_view()) == Some(d.dv()),
            None => dec_diag(j.deep_view()) is None,
        },
{
    match j.as_obj() {
        Some(fields) => match (field_str(fields, "description"), field_str(
            fields,
            "schema_location",
        )) {
            (Some(d), Some(l)) => Some(
                FunctionCheckDiagnostics { description: d, schema_location: l },
            ),
            _ => None,
        },
        None => None,
    }
}

/// Decodes a wire array of diagnostics.
pub fn diags_from_json(items: &Vec<Json>) -> (r: Option<Vec<FunctionCheckDiagnostics>>)
    ensures
        match r {
            Some(ds) => {
                &&& dec_diag_seq(jv_of_seq(items@)) is Some
                &&& ds@.len() == dec_diag_seq(jv_of_seq(items@))->Some_0.len()
                &&& forall|k: int| 0 <= k < ds@.len() ==> (#[trigger] ds@[k]).dv()
                    == dec_diag_seq(jv_of_seq(items@))->Some_0[k]
            },
            None => dec_diag_seq(jv_of_seq(items@)) is None,
        },
{
    broadcast use crate::json::lemma_jv_of_seq_is_map;

    let mut out: Vec<FunctionCheckDiagnostics> = Vec::new();
    let mut i: usize = 0;
    while i < items.len()
        invariant
            0 <= i <= items@.len(),
            out@.len() == i,
            dec_diag_seq(jv_of_seq(items@).take(i as int)) is Some,
            forall|k: int| 0 <= k < i ==> (#[trigger] out@[k]).dv() == dec_diag_seq(
                jv_of_seq(items@).take(i as int),
            )->Some_0[k],
        decreases items@.len() - i,
    {
        let ghost pre = jv_of_seq(items@).take(i as int);
        let ghost cur = jv_of_seq(items@).take(i + 1);
        proof {
            crate::json::lemma_jv_of_seq_len(items@);
            crate::json::lemma_jv_of_seq_index(items@, i as int);
            assert(cur.drop_last() =~= pre);
            assert(cur.last() == jv_of(items@[i as int]));
            lemma_dec_diag_seq_some_len(pre);
        }
        match diag_from_json(&items[i]) {
            Some(d) => {
                out.push(d);
            },
            None => {
                proof {
                    lemma_dec_diag_seq_prefix_none(jv_of_seq(items@), i + 1);
                }
                return None;
            },
        }
        i += 1;
    }
    proof {
        crate::json::lemma_jv_of_seq_len(items@);
        assert(jv_of_seq(items@).take(items@.len() as int) =~= jv_of_seq(items@));
        lemma_dec_diag_seq_some_len(jv_of_seq(items@));
    }
    Some(out)
}

/// A decoded array has exactly one entry per wire element.
pub proof fn lemma_dec_diag_seq_some_len(items: Seq<JsonV>)
    requires
        dec_diag_seq(items) is Some,
    ensures
        dec_diag_seq(items)->Some_0.len() == items.len(),
    decreases items.len(),
{
    if items.len() > 0 {
        lemma_dec_diag_seq_some_len(items.drop_last());
    }
}

/// Once a prefix of the array is rejected, the whole array is.
proof fn lemma_dec_diag_seq_prefix_none(items: Seq<JsonV>, n: int)
    requires
        0 <= n <= items.len(),
        dec_diag_seq(items.take(n)) is None,
    ensures
        dec_diag_seq(items) is None,
    decreases items.len() - n,
{
    if n < items.len() {
        assert(items.take(n + 1).drop_last() =~= items.take(n));
        lemma_dec_diag_seq_prefix_none(items, n + 1);
    } else {
        assert(items.take(n) =~= items);
    }
}

/// Every diagnostic array decodes back to itself.
pub proof fn lemma_diag_seq_round_trip(ds: Seq<DiagV>)
    ensures
        dec_diag_seq(Seq::new(ds.len(), |i: int| enc_diag(ds[i]))) == Some(ds),
    decreases ds.len(),
{
    broadcast use vstd::string::group_string_axioms;

    reveal_with_fuel(crate::json::obj_get_v, 4);
    reveal_strlit("description");
    reveal_strlit("schema_location");
    assert("description"@.len() == 11);
    assert("schema_location"@.len() == 15);
    let enc = Seq::new(ds.len(), |i: int| enc_diag(ds[i]));
    if ds.len() > 0 {
        lemma_diag_seq_round_trip(ds.drop_last());
        assert(enc.drop_last() =~= Seq::new(
            ds.drop_last().len(),
            |i: int| enc_diag(ds.drop_last()[i]),
        ));
        assert(dec_diag_seq(enc)->Some_0 =~= ds);
    } else {
        assert(enc =~= Seq::<JsonV>::empty());
    }
}

/// The outcome of schema validation: the service either rejects the
/// schema with errors, or accepts it, possibly with warnings.
#[derive(Debug, PartialEq)]
pub enum FunctionCheckResult {
    Rejected { errors: Vec<FunctionCheckDiagnostics> },
    Accepted { warnings: Vec<FunctionCheckDiagnostics> },
}

/// The mathematical shape of a [`FunctionCheckResult`].
#[verifier::ext_equal]
pub enum FunctionCheckResultV {
    Rejected { errors: Seq<DiagV> },
    Accepted { warnings: Seq<DiagV> },
}

impl FunctionCheckResult {
    pub open spec fn dv(&self) -> FunctionCheckResultV {
        match self {
            FunctionCheckResult::Rejected { errors } => FunctionCheckResultV::Rejected {
                errors: Seq::new(errors@.len(), |i: int| errors@[i].dv()),
            },
            FunctionCheckResult::Accepted { warnings } => FunctionCheckResultV::Accepted {
                warnings: Seq::new(warnings@.len(), |i: int| warnings@[i].dv()),
            },
        }
    }
}

/// The whole validation response.
#[derive(Debug, PartialEq)]
pub struct FunctionCheckResponse {
    pub status: u16,
    pub message: String,
    pub json_ai_rules_version: String,
    pub result: FunctionCheckResult,
}

/// The mathematical shape of a [`FunctionCheckResponse`].
#[verifier::ext_equal]
pub struct FunctionCheckResponseV {
    pub status: u16,
    pub message: Seq<char>,
    pub json_ai_rules_version: Seq<char>,
    pub result: FunctionCheckResultV,
}

impl FunctionCheckResponse {
    pub open spec fn dv(&self) -> FunctionCheckResponseV {
        FunctionCheckResponseV {
            status: self.status,
            message: self.message@,
            json_ai_rules_version: self.json_ai_rules_version@,
            result: self.result.dv(),
        }
    }
}

/// The error taxonomy of function validation.
#[derive(Debug, PartialEq)]
pub enum FunctionError {
    /// The exchange with the service failed.
    BadRequest { cause: crate::executor::RequestError },
    /// The service rejected the schema; its diagnostics are kept.
    BadFunction { errors: Vec<FunctionCheckDiagnostics> },
}

/// The accepting arm of the outcome: a missing `warnings` field reads as no
/// warnings at all.
pub open spec fn dec_fc_accepted(f: Seq<(Seq<char>, JsonV)>) -> Option<FunctionCheckResultV> {
    match obj_get_v(f, "warnings"@) {
        None => Some(FunctionCheckResultV::Accepted { warnings: Seq::empty() }),
        Some(JsonV::Arr(items)) => match dec_diag_seq(items) {
            Some(w) => Some(FunctionCheckResultV::Accepted { warnings: w }),
            None => None,
        },
        Some(_) => None,
    }
}

/// The outcome is told apart by which diagnostics field the body carries: a
/// decodable `errors` array means rejected, anything else falls back to the
/// accepting arm.
pub open spec fn dec_fc_result(f: Seq<(Seq<char>, JsonV)>) -> Option<FunctionCheckResultV> {
    match obj_get_v(f, "errors"@) {
        Some(JsonV::Arr(items)) => match dec_diag_seq(items) {
            Some(e) => Some(FunctionCheckResultV::Rejected { errors: e }),
            None => dec_fc_accepted(f),
        },
        Some(_) => dec_fc_accepted(f),
        None => dec_fc_accepted(f),
    }
}

/// Reads the outcome out of the response body's fields.
pub fn function_check_result(fields: &Vec<(String, Json)>) -> (r: Option<FunctionCheckResult>)
    ensures
        match r {
            Some(v) => dec_fc_result(jv_of_fields(fields@)) == Some(v.dv()),
            None => dec_fc_result(jv_of_fields(fields@)) is None,
        },
{
    match field_arr(fields, "errors") {
        Some(items) => match diags_from_json(items) {
            Some(errors) => {
                let r = FunctionCheckResult::Rejected { errors };
                proof {
                    assert(r.dv()->Rejected_errors =~= dec_fc_result(
                        jv_of_fields(fields@),
                    )->Some_0->Rejected_errors);
                }
                return Some(r);
            },
            None => {},
        },
        None => {},
    }
    match obj_get(fields, "warnings") {
        None => Some(FunctionCheckResult::Accepted { warnings: Vec::new() }),
        Some(w) => match w.as_arr() {
            Some(items) => match diags_from_json(items) {
                Some(warnings) => {
                    let r = FunctionCheckResult::Accepted { warnings };
                    proof {
                        assert(r.dv()->Accepted_warnings =~= dec_fc_result(
                            jv_of_fields(fields@),
                        )->Some_0->Accepted_warnings);
                    }
                    Some(r)
                },
                None => None,
            },
            None => None,
        },
    }
}

/// Reads a whole validation response off the wire.
pub open spec fn dec_fc_response(j: JsonV) -> Option<FunctionCheckResponseV> {
    match j {
        JsonV::Obj(f) => match (
            get_u16_v(f, "status"@),
            get_str_v(f, "message"@),
            get_str_v(f, "json_ai_rules_version"@),
            dec_fc_result(f),
        ) {
            (Some(st), Some(m), Some(v), Some(res)) => Some(
                FunctionCheckResponseV {
                    status: st,
                    message: m,
                    json_ai_rules_version: v,
                    result: res,
                },
            ),
            _ => None,
        },
        _ => None,
    }
}

/// Decodes the whole validation response body's fields.
pub fn function_check_response_from_fields(fields: &Vec<(String, Json)>) -> (r: Option<
    FunctionCheckResponse,
>)
    ensures
        match r {
            Some(resp) => dec_fc_response(JsonV::Obj(jv_of_fields(fields@))) == Some(resp.dv()),
            None => dec_fc_response(JsonV::Obj(jv_of_fields(fields@))) is None,
        },
{
    let status = match field_u16(fields, "status") {
        Some(s) => s,
        None => {
            return None;
        },
    };
    let message = match field_str(fields, "message") {
        Some(m) => m,
        None => {
            return None;
        },
    };
    let version = match field_str(fields, "json_ai_rules_version") {
        Some(v) => v,
        None => {
            return None;
        },
    };
    let result = match function_check_result(fields) {
        Some(v) => v,
        None => {
            return None;
        },
    };
    Some(FunctionCheckResponse { status, message, json_ai_rules_version: version, result })
}

/// A validation outcome on the wire: the diagnostics under the arm's field.
pub open spec fn enc_fc_result_field(res: FunctionCheckResultV) -> (Seq<char>, JsonV) {
    match res {
        FunctionCheckResultV::Rejected { errors } => (
            "errors"@,
            JsonV::Arr(Seq::new(errors.len(), |i: int| enc_diag(errors[i]))),
        ),
        FunctionCheckResultV::Accepted { warnings } => (
            "warnings"@,
            JsonV::Arr(Seq::new(warnings.len(), |i: int| enc_diag(warnings[i]))),
        ),
    }
}

pub open spec fn enc_fc_response(r: FunctionCheckResponseV) -> JsonV {
    JsonV::Obj(
        seq![
            ("status"@, JsonV::Int(r.status as i64)),
            ("message"@, JsonV::Str(r.message)),
            ("json_ai_rules_version"@, JsonV::Str(r.json_ai_rules_version)),
            enc_fc_result_field(r.result),
        ],
    )
}

/// A validation response decodes back to itself.
pub proof fn lemma_fc_response_round_trip(r: FunctionCheckResponseV)
    ensures
        dec_fc_response(enc_fc_response(r)) == Some(r),
{
    broadcast use vstd::string::group_string_axioms;

    reveal_with_fuel(crate::json::obj_get_v, 6);
    reveal_strlit("status");
    reveal_strlit("message");
    reveal_strlit("json_ai_rules_version");
    reveal_strlit("errors");
    reveal_strlit("warnings");
    assert("status"@.len() == 6);
    assert("message"@.len() == 7);
    assert("json_ai_rules_version"@.len() == 21);
    assert("errors"@.len() == 6);
    assert("warnings"@.len() == 8);
    assert("status"@[0] == 's');
    assert("errors"@[0] == 'e');
    assert("message"@[0] == 'm');
    assert("warnings"@[0] == 'w');
    match r.result {
        FunctionCheckResultV::Rejected { errors } => {
            lemma_diag_seq_round_trip(errors);
        },
        FunctionCheckResultV::Accepted { warnings } => {
            lemma_diag_seq_round_trip(warnings);
        },
    }
}

/// Maps the service's conclusion to the caller-facing result: a rejection
/// becomes `BadFunction` carrying the errors, an acceptance hands the
/// warnings through.
pub fn function_check_outcome(resp: FunctionCheckResponse) -> (r: Result<
    Vec<FunctionCheckDiagnostics>,
    FunctionError,
>)
    ensures
        match resp.result {
            FunctionCheckResult::Rejected { errors } => r == Err::<
                Vec<FunctionCheckDiagnostics>,
                FunctionError,
            >(FunctionError::BadFunction { errors }),
            FunctionCheckResult::Accepted { warnings } => r == Ok::<
                Vec<FunctionCheckDiagnostics>,
                FunctionError,
            >(warnings),
        },
{
    match resp.result {
        FunctionCheckResult::Rejected { errors } => Err(FunctionError::BadFunction { errors }),
        FunctionCheckResult::Accepted { warnings } => Ok(warnings),
    }
}


impl FunctionCheckResponse {
    /// Decodes a wire object into a validation response.
    pub fn from_json(j: &Json) -> (r: Option<FunctionCheckResponse>)
        ensures
            match r {
                Some(resp) => dec_fc_response(j.deep_view()) == Some(resp.dv()),
                None => dec_fc_response(j.deep_view()) is None,
            },
    {
        match j.as_obj() {
            Some(fields) => function_check_response_from_fields(fields),
            None => None,
        }
    }

    /// The whole decode step over one success body: the bytes must parse as
    /// JSON and read as this shape; anything else fails with `ParseResponse`
    /// carrying the bytes.
    pub fn from_body(bytes: &[u8]) -> (r: Result<
        FunctionCheckResponse,
        crate::executor::RequestError,
    >)
        ensures
            match r {
                Ok(resp) => crate::json::json_of_bytes(bytes@) matches Some(j) && dec_fc_response(
                    j,
                ) == Some(resp.dv()),
                Err(e) => {
                    &&& (crate::json::json_of_bytes(bytes@) is None || dec_fc_response(
                        crate::json::json_of_bytes(bytes@)->Some_0,
                    ) is None)
                    &&& e matches crate::executor::RequestError::ParseResponse { raw } && raw@
                        == bytes@
                },
            },
    {
        match crate::json::parse_json_bytes(bytes) {
            Some(j) => match FunctionCheckResponse::from_json(&j) {
                Some(resp) => Ok(resp),
                None => Err(
                    crate::executor::RequestError::ParseResponse {
                        raw: crate::json::copy_bytes(bytes),
                    },
                ),
            },
            None => Err(
                crate::executor::RequestError::ParseResponse { raw: crate::json::copy_bytes(bytes) },
            ),
        }
    }
}

} // verus!
