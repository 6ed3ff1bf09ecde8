use vstd::prelude::*;
use vstd::string::StringExecFns;

use crate::generation::{
    dec_response, enc_request, GenerationRequest, GenerationResponse, GenerationResponseV,
};
use crate::json::{
    field_i64, field_str, field_usize, get_i64_v, get_str_v, get_usize_v, json_text_of, obj_get,
    obj_get_v, render_json, Json, JsonV,
};

verus! {

/// The states a batch job moves through, as the service reports them.
#[derive(Debug, Clone, Copy, PartialEq, Eq, Structural)]
pub enum Status {
    Created,
    InProgress,
    Completed,
}

pub open spec fn enc_status(s: Status) -> JsonV {
    match s {
        Status::Created => JsonV::Str("created"@),
        Status::InProgress => JsonV::Str("in_progress"@),
        Status::Completed => JsonV::Str("completed"@),
    }
}

pub open spec fn dec_status(j: JsonV) -> Option<Status> {
    match j {
        JsonV::Str(s) => if s == "created"@ {
            Some(Status::Created)
        } else if s == "in_progress"@ {
            Some(Status::InProgress)
        } else if s == "completed"@ {
            Some(Status::Completed)
        } else {
            None
        },
        _ => None,
    }
}

impl Status {
    /// Encodes this status as its wire string.
    pub fn to_json(&self) -> (j: Json)
        ensures
            j.deep_view() == enc_status(*self),
    {
        match self {
            Status::Created => Json::Str("created".to_owned()),
            Status::InProgress => Json::Str("in_progress".to_owned()),
            Status::Completed => Json::Str("completed".to_owned()),
        }
    }

    /// Decodes a wire string into a status.
    pub fn from_json(j: &Json) -> (r: Option<Status>)
        ensures
            r == dec_status(j.deep_view()),
    {
        match j.as_str() {
            Some(s) => {
                if *s == "created".to_owned() {
                    Some(Status::Created)
                } else if *s == "in_progress".to_owned() {
                    Some(Status::InProgress)
                } else if *s == "completed".to_owned() {
                    Some(Status::Completed)
                } else {
                    None
                }
            },
            None => None,
        }
    }
}

/// A status decodes back to itself.
pub proof fn lemma_status_round_trip(s: Status)
    ensures
        dec_status(enc_status(s)) == Some(s),
{
    broadcast use vstd::string::group_string_axioms;

    reveal_strlit("created");
    reveal_strlit("in_progress");
    reveal_strlit("completed");
    assert("created"@.len() == 7);
    assert("in_progress"@.len() == 11);
    assert("completed"@.len() == 9);
}

/// What kind of work a batch carries.
#[derive(Debug, Clone, Copy, PartialEq, Eq, Structural)]
pub enum Method {
    ChatCompletions,
    Embedder,
}

pub open spec fn enc_method(m: Method) -> JsonV {
    match m {
        Method::ChatCompletions => JsonV::Str("chat_completions"@),
        Method::Embedder => JsonV::Str("embedder"@),
    }
}

pub open spec fn dec_method(j: JsonV) -> Option<Method> {
    match j {
        JsonV::Str(s) => if s == "chat_completions"@ {
            Some(Method::ChatCompletions)
        } else if s == "embedder"@ {
            Some(Method::Embedder)
        } else {
            None
        },
        _ => None,
    }
}

impl Method {
    /// Decodes a wire string into a method.
    pub fn from_json(j: &Json) -> (r: Option<Method>)
        ensures
            r == dec_method(j.deep_view()),
    {
        match j.as_str() {
            Some(s) => {
                if *s == "chat_completions".to_owned() {
                    Some(Method::ChatCompletions)
                } else if *s == "embedder".to_owned() {
                    Some(Method::Embedder)
                } else {
                    None
                }
            },
            None => None,
        }
    }
}

/// A method decodes back to itself.
pub proof fn lemma_method_round_trip(m: Method)
    ensures
        dec_method(enc_method(m)) == Some(m),
{
    broadcast use vstd::string::group_string_axioms;

    reveal_strlit("chat_completions");
    reveal_strlit("embedder");
    assert("chat_completions"@.len() == 16);
    assert("embedder"@.len() == 8);
}

/// The counts a submission acknowledgement carries.
#[derive(Debug, Clone, Copy, PartialEq, Eq, Structural)]
pub struct BatchCreateCounts {
    pub total: usize,
}

/// The counts a poll carries.
#[derive(Debug, Clone, Copy, PartialEq, Eq, Structural)]
pub struct BatchCheckCounts {
    pub total: usize,
    pub completed: usize,
    pub failed: usize,
}

pub open spec fn dec_check_counts(j: JsonV) -> Option<BatchCheckCounts> {
    match j {
        JsonV::Obj(f) => match (
            get_usize_v(f, "total"@),
            get_usize_v(f, "completed"@),
            get_usize_v(f, "failed"@),
        ) {
            (Some(t), Some(c), Some(fl)) => Some(
                BatchCheckCounts { total: t, completed: c, failed: fl },
            ),
            _ => None,
        },
        _ => None,
    }
}

/// Decodes the poll counts object.
pub fn check_counts_from_json(j: &Json) -> (r: Option<BatchCheckCounts>)
    ensures
        r == dec_check_counts(j.deep_view()),
{
    match j.as_obj() {
        Some(fields) => match (
            field_usize(fields, "total"),
            field_usize(fields, "completed"),
            field_usize(fields, "failed"),
        ) {
            (Some(t), Some(c), Some(fl)) => Some(
                BatchCheckCounts { total: t, completed: c, failed: fl },
            ),
            _ => None,
        },
        None => None,
    }
}

/// The submission acknowledgement.
#[derive(Debug, PartialEq)]
pub struct BatchCreateResponse {
    pub id: String,
    pub method: Method,
    pub counts: BatchCreateCounts,
    pub status: Status,
    /// Epoch milliseconds.
    pub created_at: i64,
    /// Epoch milliseconds.
    pub updated_at: i64,
}

pub open spec fn dec_create_counts(j: JsonV) -> Option<BatchCreateCounts> {
    match j {
        JsonV::Obj(f) => match get_usize_v(f, "total"@) {
            Some(t) => Some(BatchCreateCounts { total: t }),
            None => None,
        },
        _ => None,
    }
}

/// The mathematical shape of a [`BatchCreateResponse`].
#[verifier::ext_equal]
pub struct BatchCreateResponseV {
    pub id: Seq<char>,
    pub method: Method,
    pub counts: BatchCreateCounts,
    pub status: Status,
    pub created_at: i64,
    pub updated_at: i64,
}

impl BatchCreateResponse {
    pub open spec fn dv(&self) -> BatchCreateResponseV {
        BatchCreateResponseV {
            id: self.id@,
            method: self.method,
            counts: self.counts,
            status: self.status,
            created_at: self.created_at,
            updated_at: self.updated_at,
        }
    }
}

pub open spec fn dec_create_response(j: JsonV) -> Option<BatchCreateResponseV> {
    match j {
        JsonV::Obj(f) => {
            let method = match obj_get_v(f, "method"@) {
                Some(x) => dec_method(x),
                None => None,
            };
            let counts = match obj_get_v(f, "counts"@) {
                Some(x) => dec_create_counts(x),
                None => None,
            };
            let status = match obj_get_v(f, "status"@) {
                Some(x) => dec_status(x),
                None => None,
            };
            match (
                get_str_v(f, "id"@),
                method,
                counts,
                status,
                get_i64_v(f, "created_at"@),
                get_i64_v(f, "updated_at"@),
            ) {
                (Some(id), Some(m), Some(c), Some(s), Some(ca), Some(ua)) => Some(
                    BatchCreateResponseV {
                        id,
                        method: m,
                        counts: c,
                        status: s,
                        created_at: ca,
                        updated_at: ua,
                    },
                ),
                _ => None,
            }
        },
        _ => None,
    }
}

impl BatchCreateResponse {
    /// Decodes the submission acknowledgement body.
    pub fn from_json(j: &Json) -> (r: Option<BatchCreateResponse>)
        ensures
            match r {
                Some(resp) => dec_create_response(j.deep_view()) == Some(resp.dv()),
                None => dec_create_response(j.deep_view()) is None,
            },
    {
        let fields = match j.as_obj() {
            Some(f) => f,
            None => {
                return None;
            },
        };
        let id = match field_str(fields, "id") {
            Some(x) => x,
            None => {
                return None;
            },
        };
        let method = match obj_get(fields, "method") {
            Some(x) => match Method::from_json(x) {
                Some(m) => m,
                None => {
                    return None;
                },
            },
            None => {
                return None;
            },
        };
        let counts = match obj_get(fields, "counts") {
            Some(x) => match x.as_obj() {
                Some(cf) => match field_usize(cf, "total") {
                    Some(t) => BatchCreateCounts { total: t },
                    None => {
                        return None;
                    },
                },
                None => {
                    return None;
                },
            },
            None => {
                return None;
            },
        };
        let status = match obj_get(fields, "status") {
            Some(x) => match Status::from_json(x) {
                Some(s) => s,
                None => {
                    return None;
                },
            },
            None => {
                return None;
            },
        };
        let created_at = match field_i64(fields, "created_at") {
            Some(x) => x,
            None => {
                return None;
            },
        };
        let updated_at = match field_i64(fields, "updated_at") {
            Some(x) => x,
            None => {
                return None;
            },
        };
        Some(BatchCreateResponse { id, method, counts, status, created_at, updated_at })
    }
}

/// One poll's body.
#[derive(Debug, PartialEq)]
pub struct BatchCheckResponse {
    pub id: String,
    pub method: Method,
    pub request_counts: BatchCheckCounts,
    pub status: Status,
    pub output_file_id: Option<String>,
    /// Epoch milliseconds.
    pub created_at: i64,
    /// Epoch milliseconds.
    pub updated_at: i64,
}

/// The mathematical shape of a [`BatchCheckResponse`].
#[verifier::ext_equal]
pub struct BatchCheckResponseV {
    pub id: Seq<char>,
    pub method: Method,
    pub request_counts: BatchCheckCounts,
    pub status: Status,
    pub output_file_id: Option<Seq<char>>,
    pub created_at: i64,
    pub updated_at: i64,
}

impl BatchCheckResponse {
    pub open spec fn dv(&self) -> BatchCheckResponseV {
        BatchCheckResponseV {
            id: self.id@,
            method: self.method,
            request_counts: self.request_counts,
            status: self.status,
            output_file_id: match self.output_file_id {
                Some(s) => Some(s@),
                None => None,
            },
            created_at: self.created_at,
            updated_at: self.updated_at,
        }
    }
}

pub open spec fn dec_check_response(j: JsonV) -> Option<BatchCheckResponseV> {
    match j {
        JsonV::Obj(f) => {
            let method = match obj_get_v(f, "method"@) {
                Some(x) => dec_method(x),
                None => None,
            };
            let counts = match obj_get_v(f, "request_counts"@) {
                Some(x) => dec_check_counts(x),
                None => None,
            };
            let status = match obj_get_v(f, "status"@) {
                Some(x) => dec_status(x),
                None => None,
            };
            match (
                get_str_v(f, "id"@),
                method,
                counts,
                status,
                crate::json::get_opt_str_v(f, "output_file_id"@),
                get_i64_v(f, "created_at"@),
                get_i64_v(f, "updated_at"@),
            ) {
                (Some(id), Some(m), Some(c), Some(s), Some(ofi), Some(ca), Some(ua)) => Some(
                    BatchCheckResponseV {
                        id,
                        method: m,
                        request_counts: c,
                        status: s,
                        output_file_id: ofi,
                        created_at: ca,
                        updated_at: ua,
                    },
                ),
                _ => None,
            }
        },
        _ => None,
    }
}

impl BatchCheckResponse {
    /// Decodes one poll body.
    pub fn from_json(j: &Json) -> (r: Option<BatchCheckResponse>)
        ensures
            match r {
                Some(resp) => dec_check_response(j.deep_view()) == Some(resp.dv()),
                None => dec_check_response(j.deep_view()) is None,
            },
    {
        let fields = match j.as_obj() {
            Some(f) => f,
            None => {
                return None;
            },
        };
        let id = match field_str(fields, "id") {
            Some(x) => x,
            None => {
                return None;
            },
        };
        let method = match obj_get(fields, "method") {
            Some(x) => match Method::from_json(x) {
                Some(m) => m,
                None => {
                    return None;
                },
            },
            None => {
                return None;
            },
        };
        let request_counts = match obj_get(fields, "request_counts") {
            Some(x) => match check_counts_from_json(x) {
                Some(c) => c,
                None => {
                    return None;
                },
            },
            None => {
                return None;
            },
        };
        let status = match obj_get(fields, "status") {
            Some(x) => match Status::from_json(x) {
                Some(s) => s,
                None => {
                    return None;
                },
            },
            None => {
                return None;
            },
        };
        let output_file_id = match crate::json::field_opt_str(fields, "output_file_id") {
            Some(o) => o,
            None => {
                return None;
            },
        };
        let created_at = match field_i64(fields, "created_at") {
            Some(x) => x,
            None => {
                return None;
            },
        };
        let updated_at = match field_i64(fields, "updated_at") {
            Some(x) => x,
            None => {
                return None;
            },
        };
        Some(
            BatchCheckResponse {
                id,
                method,
                request_counts,
                status,
                output_file_id,
                created_at,
                updated_at,
            },
        )
    }
}

/// One failed batch item, as the service reports it.
#[derive(Debug, Clone, PartialEq, Eq)]
pub struct BatchItemError {
    pub status: u16,
    pub message: String,
}

/// The mathematical shape of a [`BatchItemError`].
#[verifier::ext_equal]
pub struct BatchItemErrorV {
    pub status: u16,
    pub message: Seq<char>,
}

impl BatchItemError {
    pub open spec fn dv(&self) -> BatchItemErrorV {
        BatchItemErrorV { status: self.status, message: self.message@ }
    }
}

pub open spec fn dec_item_error(j: JsonV) -> Option<BatchItemErrorV> {
    match j {
        JsonV::Obj(f) => match (crate::json::get_u16_v(f, "status"@), get_str_v(f, "message"@)) {
            (Some(s), Some(m)) => Some(BatchItemErrorV { status: s, message: m }),
            _ => None,
        },
        _ => None,
    }
}

/// Decodes one failed item's report.
pub fn item_error_from_json(j: &Json) -> (r: Option<BatchItemError>)
    ensures
        match r {
            Some(e) => dec_item_error(j.deep_view()) == Some(e.dv()),
            None => dec_item_error(j.deep_view()) is None,
        },
{
    match j.as_obj() {
        Some(fields) => match (crate::json::field_u16(fields, "status"), field_str(
            fields,
            "message",
        )) {
            (Some(s), Some(m)) => Some(BatchItemError { status: s, message: m }),
            _ => None,
        },
        None => None,
    }
}

/// One batch item's outcome: the generated response, or the item's own
/// failure. A failed item is a normal terminal outcome, not a batch failure.
#[derive(Debug, PartialEq)]
pub enum BatchResponseResult {
    Response(GenerationResponse),
    Error(BatchItemError),
}

/// The mathematical shape of a [`BatchResponseResult`].
#[verifier::ext_equal]
pub enum BatchResponseResultV {
    Response(GenerationResponseV),
    Error(BatchItemErrorV),
}

impl BatchResponseResult {
    pub open spec fn dv(&self) -> BatchResponseResultV {
        match self {
            BatchResponseResult::Response(r) => BatchResponseResultV::Response(r.dv()),
            BatchResponseResult::Error(e) => BatchResponseResultV::Error(e.dv()),
        }
    }

    /// This outcome as a plain result.
    pub fn res(self) -> (r: Result<GenerationResponse, BatchItemError>)
        ensures
            match self {
                BatchResponseResult::Response(resp) => r == Ok::<
                    GenerationResponse,
                    BatchItemError,
                >(resp),
                BatchResponseResult::Error(e) => r == Err::<GenerationResponse, BatchItemError>(e),
            },
    {
        match self {
            BatchResponseResult::Response(resp) => Ok(resp),
            BatchResponseResult::Error(e) => Err(e),
        }
    }
}

/// An item outcome on the wire: tagged by which of `result` and `error` is
/// present.
pub open spec fn dec_item_result(f: Seq<(Seq<char>, JsonV)>) -> Option<BatchResponseResultV> {
    match obj_get_v(f, "result"@) {
        Some(x) => match dec_response(x) {
            Some(resp) => Some(BatchResponseResultV::Response(resp)),
            None => None,
        },
        None => match obj_get_v(f, "error"@) {
            Some(x) => match dec_item_error(x) {
                Some(e) => Some(BatchResponseResultV::Error(e)),
                None => None,
            },
            None => None,
        },
    }
}

/// What one poll surfaces to the caller.
#[derive(Debug, PartialEq)]
pub enum BatchCheckResult {
    /// The job is queued; nothing has run yet.
    Pending,
    /// The job finished; every item's outcome, in submission order.
    Success { responses: Vec<BatchResponseResult> },
    /// The job is running: `ready` items are no longer outstanding —
    /// finished or failed — out of `total`.
    InProgress { ready: usize, total: usize },
}

/// What the caller must do after one poll: hand the result through, or fetch
/// the finished job's output first.
#[derive(Debug, PartialEq)]
pub enum PollAction {
    Ready(BatchCheckResult),
    /// The job is complete: retrieve the output named here and decode it
    /// with [`decode_batch_output`].
    FetchResults { output_file_id: Option<String> },
}

/// Maps one poll body to the caller-facing step. `Created` is pending;
/// `InProgress` surfaces `completed + failed` as the ready count — items no
/// longer outstanding, not items that succeeded; `Completed` asks for one
/// more fetch of the job's output.
pub fn poll_outcome(resp: BatchCheckResponse) -> (r: PollAction)
    requires
        resp.request_counts.completed + resp.request_counts.failed <= usize::MAX,
    ensures
        resp.status is Created ==> r == PollAction::Ready(BatchCheckResult::Pending),
        resp.status is InProgress ==> r == PollAction::Ready(
            BatchCheckResult::InProgress {
                ready: (resp.request_counts.completed + resp.request_counts.failed) as usize,
                total: resp.request_counts.total,
            },
        ),
        resp.status is Completed ==> r == (PollAction::FetchResults {
            output_file_id: resp.output_file_id,
        }),
{
    match resp.status {
        Status::Created => PollAction::Ready(BatchCheckResult::Pending),
        Status::InProgress => PollAction::Ready(
            BatchCheckResult::InProgress {
                ready: resp.request_counts.completed + resp.request_counts.failed,
                total: resp.request_counts.total,
            },
        ),
        Status::Completed => PollAction::FetchResults { output_file_id: resp.output_file_id },
    }
}

/// The decimal digits of a number, most significant first.
pub open spec fn nat_digits(n: nat) -> Seq<char>
    decreases n,
{
    if n < 10 {
        seq![digit_char(n)]
    } else {
        nat_digits(n / 10).push(digit_char(n % 10))
    }
}

pub open spec fn digit_char(d: nat) -> char {
    if d == 0 {
        '0'
    } else if d == 1 {
        '1'
    } else if d == 2 {
        '2'
    } else if d == 3 {
        '3'
    } else if d == 4 {
        '4'
    } else if d == 5 {
        '5'
    } else if d == 6 {
        '6'
    } else if d == 7 {
        '7'
    } else if d == 8 {
        '8'
    } else {
        '9'
    }
}

pub open spec fn digit_val(c: char) -> Option<nat> {
    if c == '0' {
        Some(0nat)
    } else if c == '1' {
        Some(1nat)
    } else if c == '2' {
        Some(2nat)
    } else if c == '3' {
        Some(3nat)
    } else if c == '4' {
        Some(4nat)
    } else if c == '5' {
        Some(5nat)
    } else if c == '6' {
        Some(6nat)
    } else if c == '7' {
        Some(7nat)
    } else if c == '8' {
        Some(8nat)
    } else if c == '9' {
        Some(9nat)
    } else {
        None
    }
}

/// The value a digit string denotes, or nothing if some character is not a
/// digit or the string is empty.
pub open spec fn digits_val(s: Seq<char>) -> Option<nat>
    decreases s.len(),
{
    if s.len() == 0 {
        None
    } else if s.len() == 1 {
        digit_val(s[0])
    } else {
        match (digits_val(s.drop_last()), digit_val(s.last())) {
            (Some(v), Some(d)) => Some(v * 10 + d),
            _ => None,
        }
    }
}

/// One digit as text.
fn digit_str(d: usize) -> (r: &'static str)
    requires
        d < 10,
    ensures
        r@ == seq![digit_char(d as nat)],
{
    broadcast use vstd::string::group_string_axioms;

    proof {
        reveal_strlit("0");
        reveal_strlit("1");
        reveal_strlit("2");
        reveal_strlit("3");
        reveal_strlit("4");
        reveal_strlit("5");
        reveal_strlit("6");
        reveal_strlit("7");
        reveal_strlit("8");
        reveal_strlit("9");
    }
    let r = if d == 0 {
        "0"
    } else if d == 1 {
        "1"
    } else if d == 2 {
        "2"
    } else if d == 3 {
        "3"
    } else if d == 4 {
        "4"
    } else if d == 5 {
        "5"
    } else if d == 6 {
        "6"
    } else if d == 7 {
        "7"
    } else if d == 8 {
        "8"
    } else {
        "9"
    };
    proof {
        assert(r@ =~= seq![digit_char(d as nat)]);
    }
    r
}

/// A number as its decimal text.
pub fn usize_to_string(n: usize) -> (r: String)
    ensures
        r@ == nat_digits(n as nat),
    decreases n,
{
    if n < 10 {
        digit_str(n).to_owned()
    } else {
        let mut s = usize_to_string(n / 10);
        s.append(digit_str(n % 10));
        proof {
            assert(s@ =~= nat_digits((n / 10) as nat).push(digit_char((n % 10) as nat)));
        }
        s
    }
}

/// A number's decimal text denotes the number: the key codec is lossless.
pub proof fn lemma_digits_round_trip(n: nat)
    ensures
        digits_val(nat_digits(n)) == Some(n),
        nat_digits(n).len() >= 1,
    decreases n,
{
    if n < 10 {
    } else {
        lemma_digits_round_trip(n / 10);
        let s = nat_digits(n);
        assert(s == nat_digits(n / 10).push(digit_char(n % 10)));
        assert(s.drop_last() =~= nat_digits(n / 10));
        assert(s.last() == digit_char(n % 10));
        assert(digit_val(digit_char(n % 10)) == Some(n % 10));
        assert((n / 10) * 10 + n % 10 == n) by {
            vstd::arithmetic::div_mod::lemma_fundamental_div_mod(n as int, 10);
        }
    }
}

/// The digit value of one character.
fn digit_of(c: char) -> (r: Option<usize>)
    ensures
        match r {
            Some(d) => digit_val(c) == Some(d as nat) && d < 10,
            None => digit_val(c) is None,
        },
{
    if c == '0' {
        Some(0)
    } else if c == '1' {
        Some(1)
    } else if c == '2' {
        Some(2)
    } else if c == '3' {
        Some(3)
    } else if c == '4' {
        Some(4)
    } else if c == '5' {
        Some(5)
    } else if c == '6' {
        Some(6)
    } else if c == '7' {
        Some(7)
    } else if c == '8' {
        Some(8)
    } else if c == '9' {
        Some(9)
    } else {
        None
    }
}

/// Appending digits never shrinks the denoted value.
proof fn lemma_digits_val_prefix(s: Seq<char>, i: int)
    requires
        1 <= i <= s.len(),
        digits_val(s) is Some,
    ensures
        digits_val(s.take(i)) is Some,
        digits_val(s.take(i))->Some_0 <= digits_val(s)->Some_0,
    decreases s.len() - i,
{
    if i == s.len() {
        assert(s.take(i) =~= s);
    } else {
        lemma_digits_val_prefix(s, i + 1);
        let t = s.take(i + 1);
        assert(t.drop_last() =~= s.take(i));
        assert(t.last() == s[i]);
        if t.len() == 1 {
            assert(digits_val(s.take(i)) is Some || true);
            assert(digits_val(t) is Some);
            if digits_val(s.take(i)) is None {
                assert(s.take(i).len() == 0 || digits_val(t.drop_last()) is None);
                if s.take(i).len() == 0 {
                    assert(false);
                }
            }
        }
        assert(digits_val(t) is Some);
        if t.len() > 1 {
            assert(digits_val(t.drop_last()) is Some);
        }
    }
}

/// The value a digit string denotes, when it fits the machine word.
pub open spec fn key_val(s: Seq<char>) -> Option<usize> {
    match digits_val(s) {
        Some(v) => if v <= usize::MAX {
            Some(v as usize)
        } else {
            None
        },
        None => None,
    }
}

/// Reads a decimal key: every character a digit, the value within the
/// machine word.
pub fn parse_usize(s: &str) -> (r: Option<usize>)
    ensures
        r == key_val(s@),
{
    let n = s.unicode_len();
    if n == 0 {
        return None;
    }
    let mut acc: usize = 0;
    let mut i: usize = 0;
    while i < n
        invariant
            0 < n == s@.len(),
            0 <= i <= n,
            i > 0 ==> digits_val(s@.take(i as int)) == Some(acc as nat),
            i == 0 ==> acc == 0,
        decreases n - i,
    {
        let c = s.get_char(i);
        let d = match digit_of(c) {
            Some(d) => d,
            None => {
                proof {
                    lemma_digits_none_extends(s@, i as int);
                }
                return None;
            },
        };
        if acc > usize::MAX / 10 || (acc == usize::MAX / 10 && d > usize::MAX % 10) {
            proof {
                let t = s@.take(i + 1);
                assert(t.drop_last() =~= s@.take(i as int));
                assert(t.last() == s@[i as int]);
                assert(digits_val(t) == Some((acc * 10 + d) as nat)
                    || digits_val(t) is None || i == 0) by {
                    if i > 0 {
                    }
                }
                lemma_overflow_means_too_big(s@, i as int, acc as nat, d as nat);
            }
            return None;
        }
        let ghost old_acc = acc as nat;
        acc = acc * 10 + d;
        proof {
            let t = s@.take(i + 1);
            assert(t.drop_last() =~= s@.take(i as int));
            assert(t.last() == s@[i as int]);
            if i == 0 {
                assert(t.len() == 1);
                assert(digits_val(t) == Some(d as nat));
                assert(acc as nat == d as nat) by {
                    assert(old_acc == 0);
                }
            } else {
                assert(digits_val(t) == Some(old_acc * 10 + (d as nat)));
            }
        }
        i += 1;
    }
    proof {
        assert(s@.take(n as int) =~= s@);
    }
    Some(acc)
}

/// A non-digit anywhere makes the whole string denote nothing.
proof fn lemma_digits_none_extends(s: Seq<char>, i: int)
    requires
        0 <= i < s.len(),
        digit_val(s[i]) is None,
    ensures
        digits_val(s) is None,
    decreases s.len(),
{
    if s.len() > 0 {
        if i == s.len() - 1 {
            if s.len() == 1 {
            } else {
            }
        } else {
            lemma_digits_none_extends(s.drop_last(), i);
        }
    }
}

/// Once the accumulated value cannot take one more digit within the machine
/// word, the whole string's value cannot fit either.
proof fn lemma_overflow_means_too_big(s: Seq<char>, i: int, acc: nat, d: nat)
    requires
        0 <= i < s.len(),
        i > 0 ==> digits_val(s.take(i)) == Some(acc),
        i == 0 ==> acc == 0,
        digit_val(s[i]) == Some(d),
        acc * 10 + d > usize::MAX,
    ensures
        key_val(s) is None,
{
    let t = s.take(i + 1);
    assert(t.drop_last() =~= s.take(i));
    assert(t.last() == s[i]);
    if i == 0 {
        assert(t.len() == 1);
        assert(digits_val(t) == Some(d));
        assert(acc * 10 + d == d);
        assert(d > usize::MAX);
        assert(d < 10);
        assert(usize::MAX >= 10);
        assert(false);
    } else {
        assert(digits_val(t) == Some(acc * 10 + d));
        match digits_val(s) {
            Some(v) => {
                lemma_digits_val_prefix(s, i + 1);
                assert(v >= acc * 10 + d);
            },
            None => {},
        }
    }
}

/// The submission payload: each request's JSON text on a line of its own,
/// every line terminated by a line feed.
pub open spec fn enc_batch_payload(rs: Seq<GenerationRequest>) -> Seq<u8>
    decreases rs.len(),
{
    if rs.len() == 0 {
        Seq::empty()
    } else {
        enc_batch_payload(rs.drop_last()) + json_text_of(enc_request(rs.last().dv())) + seq![10u8]
    }
}

/// Builds the submission payload. The token ceilings must fit the wire's
/// signed integers, as for any single request.
pub fn batch_payload(requests: &Vec<GenerationRequest>) -> (r: Vec<u8>)
    requires
        forall|i: int| 0 <= i < requests@.len() ==> ((#[trigger] requests@[i]).config.max_tokens
            matches Some(m) ==> m <= i64::MAX),
    ensures
        r@ == enc_batch_payload(requests@),
{
    let mut out: Vec<u8> = Vec::new();
    let mut i: usize = 0;
    while i < requests.len()
        invariant
            0 <= i <= requests@.len(),
            forall|k: int| 0 <= k < requests@.len() ==> ((#[trigger] requests@[k]).config.max_tokens
                matches Some(m) ==> m <= i64::MAX),
            out@ == enc_batch_payload(requests@.take(i as int)),
        decreases requests@.len() - i,
    {
        let tree = requests[i].to_json();
        let mut line = render_json(&tree);
        out.append(&mut line);
        out.push(10);
        proof {
            let cur = requests@.take(i + 1);
            assert(cur.drop_last() =~= requests@.take(i as int));
            assert(cur.last() == requests@[i as int]);
            assert(out@ =~= enc_batch_payload(cur));
        }
        i += 1;
    }
    proof {
        assert(requests@.take(requests@.len() as int) =~= requests@);
    }
    out
}

/// One byte of line splitting: a line feed closes the current segment (an
/// empty one vanishes), anything else extends it.
pub open spec fn split_step(acc: (Seq<Seq<u8>>, Seq<u8>), b: u8) -> (Seq<Seq<u8>>, Seq<u8>) {
    if b == 10 {
        if acc.1.len() > 0 {
            (acc.0.push(acc.1), Seq::empty())
        } else {
            acc
        }
    } else {
        (acc.0, acc.1.push(b))
    }
}

pub open spec fn split_run(s: Seq<u8>) -> (Seq<Seq<u8>>, Seq<u8>)
    decreases s.len(),
{
    if s.len() == 0 {
        (Seq::empty(), Seq::empty())
    } else {
        split_step(split_run(s.drop_last()), s.last())
    }
}

/// The non-empty line-feed-separated segments of the input; an unterminated
/// final segment counts.
pub open spec fn lines_of(s: Seq<u8>) -> Seq<Seq<u8>> {
    let (ls, cur) = split_run(s);
    if cur.len() > 0 {
        ls.push(cur)
    } else {
        ls
    }
}

/// Splits a byte string into its non-empty lines.
pub fn split_lines(bytes: &[u8]) -> (r: Vec<Vec<u8>>)
    ensures
        crate::sse::byte_seqs_of(r@) == lines_of(bytes@),
{
    let mut lines: Vec<Vec<u8>> = Vec::new();
    let mut cur: Vec<u8> = Vec::new();
    let mut i: usize = 0;
    while i < bytes.len()
        invariant
            0 <= i <= bytes@.len(),
            split_run(bytes@.take(i as int)) == (crate::sse::byte_seqs_of(lines@), cur@),
        decreases bytes@.len() - i,
    {
        let b = bytes[i];
        proof {
            assert(bytes@.take(i + 1).drop_last() =~= bytes@.take(i as int));
            assert(bytes@.take(i + 1).last() == bytes@[i as int]);
        }
        if b == 10 {
            if cur.len() > 0 {
                let ghost before = crate::sse::byte_seqs_of(lines@);
                let mut done: Vec<u8> = Vec::new();
                core::mem::swap(&mut done, &mut cur);
                lines.push(done);
                proof {
                    assert(crate::sse::byte_seqs_of(lines@) =~= before.push(
                        split_run(bytes@.take(i as int)).1,
                    ));
                }
            }
        } else {
            cur.push(b);
        }
        i += 1;
    }
    proof {
        assert(bytes@.take(bytes@.len() as int) =~= bytes@);
    }
    if cur.len() > 0 {
        let ghost before = crate::sse::byte_seqs_of(lines@);
        lines.push(cur);
        proof {
            assert(crate::sse::byte_seqs_of(lines@) =~= before.push(split_run(bytes@).1));
        }
    }
    lines
}

/// One output line: the item's submission key as decimal text, and either
/// the item's response under `result` or its failure under `error`.
pub open spec fn dec_output_line(j: JsonV) -> Option<(usize, BatchResponseResultV)> {
    match j {
        JsonV::Obj(f) => match (get_str_v(f, "key"@), dec_item_result(f)) {
            (Some(k), Some(res)) => match key_val(k) {
                Some(i) => Some((i, res)),
                _ => None,
            },
            _ => None,
        },
        _ => None,
    }
}

/// Decodes one output line's object.
pub fn output_line_from_json(j: &Json) -> (r: Option<(usize, BatchResponseResult)>)
    ensures
        match r {
            Some((k, res)) => dec_output_line(j.deep_view()) == Some((k, res.dv())),
            None => dec_output_line(j.deep_view()) is None,
        },
{
    let fields = match j.as_obj() {
        Some(f) => f,
        None => {
            return None;
        },
    };
    let key_text = match field_str(fields, "key") {
        Some(k) => k,
        None => {
            return None;
        },
    };
    let result = match obj_get(fields, "result") {
        Some(x) => match GenerationResponse::from_json(x) {
            Some(resp) => BatchResponseResult::Response(resp),
            None => {
                return None;
            },
        },
        None => match obj_get(fields, "error") {
            Some(x) => match item_error_from_json(x) {
                Some(e) => BatchResponseResult::Error(e),
                None => {
                    return None;
                },
            },
            None => {
                return None;
            },
        },
    };
    match parse_usize(key_text.as_str()) {
        Some(k) => Some((k, result)),
        None => None,
    }
}

/// Reads a whole output file's lines: all decode, or the file is rejected.
pub open spec fn dec_output_items(lines: Seq<Seq<u8>>) -> Option<
    Seq<(usize, BatchResponseResultV)>,
>
    decreases lines.len(),
{
    if lines.len() == 0 {
        Some(Seq::empty())
    } else {
        let first = match crate::json::json_of_bytes(lines.last()) {
            Some(j) => dec_output_line(j),
            None => None,
        };
        match (dec_output_items(lines.drop_last()), first) {
            (Some(s), Some(it)) => Some(s.push(it)),
            _ => None,
        }
    }
}

/// A decoded output has exactly one item per line.
pub proof fn lemma_dec_output_items_len(lines: Seq<Seq<u8>>)
    requires
        dec_output_items(lines) is Some,
    ensures
        dec_output_items(lines)->Some_0.len() == lines.len(),
    decreases lines.len(),
{
    if lines.len() > 0 {
        lemma_dec_output_items_len(lines.drop_last());
    }
}

proof fn lemma_dec_output_items_prefix_none(lines: Seq<Seq<u8>>, n: int)
    requires
        0 <= n <= lines.len(),
        dec_output_items(lines.take(n)) is None,
    ensures
        dec_output_items(lines) is None,
    decreases lines.len() - n,
{
    if n < lines.len() {
        assert(lines.take(n + 1).drop_last() =~= lines.take(n));
        lemma_dec_output_items_prefix_none(lines, n + 1);
    } else {
        assert(lines.take(n) =~= lines);
    }
}

/// The shapes of a vector of keyed outcomes.
pub open spec fn item_views(items: Seq<(usize, BatchResponseResult)>) -> Seq<
    (usize, BatchResponseResultV),
> {
    Seq::new(items.len(), |j: int| (items[j].0, items[j].1.dv()))
}

/// Some item before position `hi` carries the key `k`.
pub open spec fn key_in_prefix(
    items: Seq<(usize, BatchResponseResultV)>,
    hi: int,
    k: int,
) -> bool {
    exists|j: int| 0 <= j < hi && j < items.len() && (#[trigger] items[j]).0 == k
}

/// Some item carries the key `k`.
pub open spec fn has_key(items: Seq<(usize, BatchResponseResultV)>, k: int) -> bool {
    key_in_prefix(items, items.len() as int, k)
}

/// The keyed items cover the batch: every key within range, no key twice,
/// every position of the batch keyed by someone.
pub open spec fn covers(items: Seq<(usize, BatchResponseResultV)>, total: usize) -> bool {
    &&& forall|j: int| 0 <= j < items.len() ==> (#[trigger] items[j]).0 < total
    &&& forall|j1: int, j2: int|
        0 <= j1 < items.len() && 0 <= j2 < items.len() && j1 != j2 ==> (#[trigger] items[j1]).0 != (
        #[trigger] items[j2]).0
    &&& forall|k: int| 0 <= k < total ==> #[trigger] has_key(items, k)
}

/// The error taxonomy of the batch workflow.
#[derive(Debug, PartialEq)]
pub enum BatchError {
    /// The exchange with the service failed.
    BadRequest { cause: crate::executor::RequestError },
    /// The finished job's output could not be read as one outcome per
    /// submitted item.
    MalformedOutput,
}

/// Places every keyed item at its submission position. Succeeds exactly when
/// the items cover the batch: each key below `total`, no duplicates, no
/// position left empty.
pub fn assemble_batch_results(items: &Vec<(usize, BatchResponseResult)>, total: usize) -> (r:
    Option<Vec<BatchResponseResult>>)
    ensures
        match r {
            Some(v) => {
                &&& covers(item_views(items@), total)
                &&& v@.len() == total
                &&& forall|j: int| 0 <= j < items@.len() ==> v@[(#[trigger] items@[j]).0 as int].dv()
                    == items@[j].1.dv()
            },
            None => !covers(item_views(items@), total),
        },
{
    let ghost iv = item_views(items@);
    let ghost n = items@.len() as int;
    let mut slots: Vec<Option<BatchResponseResult>> = Vec::new();
    let mut s: usize = 0;
    while s < total
        invariant
            0 <= s <= total,
            slots@.len() == s,
            forall|k: int| 0 <= k < s ==> (#[trigger] slots@[k]) is None,
        decreases total - s,
    {
        slots.push(None);
        s += 1;
    }
    let mut t: usize = 0;
    while t < items.len()
        invariant
            iv == item_views(items@),
            n == items@.len(),
            0 <= t <= n,
            slots@.len() == total,
            forall|j: int| 0 <= j < t ==> (#[trigger] iv[j]).0 < total && (slots@[iv[j].0 as int]
                matches Some(x) && x.dv() == iv[j].1),
            forall|k: int| 0 <= k < total && (#[trigger] slots@[k]) is Some ==> key_in_prefix(
                iv,
                t as int,
                k,
            ),
            forall|j1: int, j2: int|
                0 <= j1 < t && 0 <= j2 < t && j1 != j2 ==> (#[trigger] iv[j1]).0 != (
                #[trigger] iv[j2]).0,
        decreases items@.len() - t,
    {
        let key = items[t].0;
        let ghost jj = t as int;
        proof {
            assert(iv[jj].0 == key && iv[jj].1 == items@[jj].1.dv());
        }
        if key >= total {
            proof {
                assert(!covers(iv, total));
            }
            return None;
        }
        if slots[key].is_some() {
            proof {
                assert(key_in_prefix(iv, jj, key as int));
                let j2 = choose|j: int| 0 <= j < jj && j < iv.len() && (#[trigger] iv[j]).0
                    == key as int;
                assert(iv[jj].0 == iv[j2].0 && jj != j2);
                assert(!covers(iv, total));
            }
            return None;
        }
        proof {
            assert forall|j: int| 0 <= j < jj implies (#[trigger] iv[j]).0 != key by {
                if iv[j].0 == key {
                    assert(slots@[key as int] is Some);
                }
            }
        }
        let res = clone_result(&items[t].1);
        proof {
            assert(res.dv() == iv[jj].1);
        }
        slots.set(key, Some(res));
        proof {
            assert forall|k: int|
                0 <= k < total && (#[trigger] slots@[k]) is Some implies key_in_prefix(
                iv,
                jj + 1,
                k,
            ) by {
                if k == key as int {
                    assert(iv[jj].0 == k);
                } else {
                    assert(key_in_prefix(iv, jj, k));
                    let j0 = choose|j: int| 0 <= j < jj && j < iv.len() && (#[trigger] iv[j]).0
                        == k;
                    assert(0 <= j0 < jj + 1 && iv[j0].0 == k);
                }
            }
        }
        t += 1;
    }
    // Every position must be filled.
    let mut out: Vec<BatchResponseResult> = Vec::new();
    let mut k: usize = 0;
    while k < total
        invariant
            iv == item_views(items@),
            n == items@.len(),
            0 <= k <= total,
            slots@.len() == total,
            out@.len() == k,
            forall|x: int| 0 <= x < k ==> ((#[trigger] slots@[x]) matches Some(y) && out@[x].dv()
                == y.dv()),
            forall|j: int| 0 <= j < n ==> (#[trigger] iv[j]).0 < total && (slots@[iv[j].0 as int]
                matches Some(x) && x.dv() == iv[j].1),
            forall|x: int| 0 <= x < total && (#[trigger] slots@[x]) is Some ==> key_in_prefix(
                iv,
                n,
                x,
            ),
            forall|j1: int, j2: int|
                0 <= j1 < n && 0 <= j2 < n && j1 != j2 ==> (#[trigger] iv[j1]).0 != (
                #[trigger] iv[j2]).0,
        decreases total - k,
    {
        let filled = match &slots[k] {
            Some(x) => {
                let copy = clone_result(x);
                out.push(copy);
                true
            },
            None => false,
        };
        if !filled {
            proof {
                assert(!has_key(iv, k as int)) by {
                    if has_key(iv, k as int) {
                        let j0 = choose|j: int|
                            0 <= j < iv.len() && j < iv.len() && (#[trigger] iv[j]).0 == k as int;
                        assert(slots@[k as int] is Some);
                    }
                }
                assert(!covers(iv, total));
            }
            return None;
        }
        k += 1;
    }
    proof {
        assert forall|x: int| 0 <= x < total implies #[trigger] has_key(iv, x) by {
            assert(slots@[x] is Some);
            assert(key_in_prefix(iv, n, x));
            assert(iv.len() == n);
        }
        assert(covers(iv, total));
        assert forall|j: int| 0 <= j < n implies out@[(#[trigger] iv[j]).0 as int].dv()
            == iv[j].1 by {
            assert(slots@[iv[j].0 as int] matches Some(x) && x.dv() == iv[j].1);
        }
        assert forall|j: int| 0 <= j < items@.len() implies out@[(#[trigger] items@[j]).0 as int].dv()
            == items@[j].1.dv() by {
            assert(iv[j].0 == items@[j].0 && iv[j].1 == items@[j].1.dv());
        }
    }
    Some(out)
}

/// A structurally equal copy of one item outcome.
fn clone_result(r: &BatchResponseResult) -> (c: BatchResponseResult)
    ensures
        c.dv() == r.dv(),
{
    match r {
        BatchResponseResult::Response(resp) => BatchResponseResult::Response(
            clone_response(resp),
        ),
        BatchResponseResult::Error(e) => BatchResponseResult::Error(
            BatchItemError { status: e.status, message: e.message.clone() },
        ),
    }
}

/// A structurally equal copy of one generation response.
fn clone_response(r: &GenerationResponse) -> (c: GenerationResponse)
    ensures
        c.dv() == r.dv(),
{
    let mut choices: Vec<crate::generation::Choice> = Vec::new();
    let mut i: usize = 0;
    while i < r.choices.len()
        invariant
            0 <= i <= r.choices@.len(),
            choices@.len() == i,
            forall|k: int| 0 <= k < i ==> (#[trigger] choices@[k]).dv() == r.choices@[k].dv(),
        decreases r.choices@.len() - i,
    {
        let ch = &r.choices[i];
        choices.push(
            crate::generation::Choice {
                index: ch.index,
                message: clone_message(&ch.message),
                finish_reason: ch.finish_reason,
            },
        );
        i += 1;
    }
    let c = GenerationResponse {
        choices,
        created: r.created,
        model: clone_model(&r.model),
        usage: r.usage,
    };
    proof {
        assert(c.dv().choices =~= r.dv().choices);
    }
    c
}

/// A structurally equal copy of one model name.
fn clone_model(m: &crate::generation::Model) -> (c: crate::generation::Model)
    ensures
        c.dv() == m.dv(),
{
    match m {
        crate::generation::Model::GigaChat2Lite => crate::generation::Model::GigaChat2Lite,
        crate::generation::Model::GigaChat2Pro => crate::generation::Model::GigaChat2Pro,
        crate::generation::Model::GigaChat2Max => crate::generation::Model::GigaChat2Max,
        crate::generation::Model::Custom(s) => crate::generation::Model::Custom(s.clone()),
    }
}

/// A structurally equal copy of one message.
fn clone_message(m: &crate::generation::Message) -> (c: crate::generation::Message)
    ensures
        c.dv() == m.dv(),
{
    match m {
        crate::generation::Message::System { content } => crate::generation::Message::System {
            content: content.clone(),
        },
        crate::generation::Message::User { content } => crate::generation::Message::User {
            content: content.clone(),
        },
        crate::generation::Message::Assistant { content, function_call } => {
            let fc = match function_call {
                Some(f) => Some(
                    crate::generation::FunctionCallResponse {
                        name: crate::function::FunctionName::new(f.name.name().to_owned()),
                        arguments: f.arguments.deep_clone(),
                    },
                ),
                None => None,
            };
            crate::generation::Message::Assistant { content: content.clone(), function_call: fc }
        },
        crate::generation::Message::Function { name, content } => crate::generation::Message::Function {
            name: crate::function::FunctionName::new(name.name().to_owned()),
            content: content.clone(),
        },
    }
}

/// Decodes a finished job's whole output: splits it into lines, reads one
/// keyed outcome per line, and places every outcome at its submission
/// position. Fails with `MalformedOutput` exactly when a line does not
/// decode or the keys do not cover the batch.
pub fn decode_batch_output(bytes: &[u8], total: usize) -> (r: Result<
    Vec<BatchResponseResult>,
    BatchError,
>)
    ensures
        ({
            let decoded = dec_output_items(lines_of(bytes@));
            match r {
                Ok(v) => {
                    &&& decoded is Some
                    &&& covers(decoded->Some_0, total)
                    &&& v@.len() == total
                    &&& forall|j: int|
                        0 <= j < decoded->Some_0.len() ==> v@[(#[trigger] decoded->Some_0[j]).0 as int].dv()
                            == decoded->Some_0[j].1
                },
                Err(e) => {
                    &&& (decoded is None || !covers(decoded->Some_0, total))
                    &&& e == BatchError::MalformedOutput
                },
            }
        }),
{
    let lines = split_lines(bytes);
    let ghost lv = lines_of(bytes@);
    proof {
        assert(lv.take(0) =~= Seq::<Seq<u8>>::empty());
    }
    let mut items: Vec<(usize, BatchResponseResult)> = Vec::new();
    let mut i: usize = 0;
    while i < lines.len()
        invariant
            lv == lines_of(bytes@),
            0 <= i <= lines@.len(),
            crate::sse::byte_seqs_of(lines@) == lv,
            items@.len() == i,
            dec_output_items(lv.take(i as int)) is Some,
            forall|j: int| 0 <= j < i ==> ((#[trigger] items@[j]).0, items@[j].1.dv())
                == dec_output_items(lv.take(i as int))->Some_0[j],
        decreases lines@.len() - i,
    {
        let ghost pre = lv.take(i as int);
        let ghost cur = lv.take(i + 1);
        proof {
            assert(cur.drop_last() =~= pre);
            assert(cur.last() == lv[i as int]);
            assert(lv[i as int] == lines@[i as int]@);
            lemma_dec_output_items_len(pre);
        }
        let line = &lines[i];
        proof {
            assert(line@ == lv[i as int]);
        }
        let item = match crate::json::parse_json_bytes(line.as_slice()) {
            Some(j) => match output_line_from_json(&j) {
                Some(it) => it,
                None => {
                    proof {
                        assert(crate::json::json_of_bytes(cur.last()) matches Some(jv) && dec_output_line(jv) is None);
                        assert(dec_output_items(cur) is None);
                        lemma_dec_output_items_prefix_none(lv, i + 1);
                        assert(dec_output_items(lv) is None);
                    }
                    return Err(BatchError::MalformedOutput);
                },
            },
            None => {
                proof {
                    assert(crate::json::json_of_bytes(cur.last()) is None);
                    assert(dec_output_items(cur) is None);
                    lemma_dec_output_items_prefix_none(lv, i + 1);
                    assert(dec_output_items(lv) is None);
                }
                return Err(BatchError::MalformedOutput);
            },
        };
        items.push(item);
        i += 1;
    }
    proof {
        assert(lv.take(lines@.len() as int) =~= lv);
        lemma_dec_output_items_len(lv);
    }
    let ghost decoded = dec_output_items(lv)->Some_0;
    proof {
        assert(item_views(items@) =~= decoded);
    }
    match assemble_batch_results(&items, total) {
        Some(v) => Ok(v),
        None => Err(BatchError::MalformedOutput),
    }
}

/// Gathers the requests of one batch and builds the submission payload.
#[derive(Debug, PartialEq)]
pub struct BatchBuilder {
    pub requests: Vec<GenerationRequest>,
}

impl BatchBuilder {
    /// An empty batch.
    pub fn new() -> (r: BatchBuilder)
        ensures
            r.requests@.len() == 0,
    {
        BatchBuilder { requests: Vec::new() }
    }

    /// Adds one request.
    pub fn with_request(self, request: GenerationRequest) -> (r: Self)
        ensures
            r.requests@ == self.requests@.push(request),
    {
        let mut b = self;
        b.requests.push(request);
        b
    }

    /// Adds several requests, in order.
    pub fn with_requests(self, requests: Vec<GenerationRequest>) -> (r: Self)
        ensures
            r.requests@ == self.requests@ + requests@,
    {
        let mut b = self;
        let mut more = requests;
        b.requests.append(&mut more);
        b
    }

    /// The line-delimited submission payload for the gathered requests.
    pub fn payload(&self) -> (r: Vec<u8>)
        requires
            forall|i: int| 0 <= i < self.requests@.len() ==> ((#[trigger] self.requests@[i]).config.max_tokens
                matches Some(m) ==> m <= i64::MAX),
        ensures
            r@ == enc_batch_payload(self.requests@),
    {
        batch_payload(&self.requests)
    }
}

/// The handle a submission yields: nothing but the job's identifier; all
/// state lives with the service and is re-fetched on every poll.
#[derive(Debug, Clone, PartialEq, Eq)]
pub struct BatchHandler {
    id: String,
}

impl BatchHandler {
    /// The identifier this handle polls.
    pub closed spec fn id_view(&self) -> Seq<char> {
        self.id@
    }

    /// A handle for the given job.
    pub fn new(id: String) -> (r: BatchHandler)
        ensures
            r.id_view() == id@,
    {
        BatchHandler { id }
    }

    /// The job's identifier.
    pub fn id(&self) -> (r: &str)
        ensures
            r@ == self.id_view(),
    {
        self.id.as_str()
    }
}

pub open spec fn enc_item_error(e: BatchItemErrorV) -> JsonV {
    JsonV::Obj(
        seq![("status"@, JsonV::Int(e.status as i64)), ("message"@, JsonV::Str(e.message))],
    )
}

/// A failed item's report decodes back to itself.
pub proof fn lemma_item_error_round_trip(e: BatchItemErrorV)
    ensures
        dec_item_error(enc_item_error(e)) == Some(e),
{
    broadcast use vstd::string::group_string_axioms;

    reveal_with_fuel(crate::json::obj_get_v, 4);
    reveal_strlit("status");
    reveal_strlit("message");
    assert("status"@.len() == 6);
    assert("message"@.len() == 7);
}

pub open spec fn enc_create_counts(c: BatchCreateCounts) -> JsonV {
    JsonV::Obj(seq![("total"@, JsonV::Int(c.total as i64))])
}

pub open spec fn enc_check_counts(c: BatchCheckCounts) -> JsonV {
    JsonV::Obj(
        seq![
            ("total"@, JsonV::Int(c.total as i64)),
            ("completed"@, JsonV::Int(c.completed as i64)),
            ("failed"@, JsonV::Int(c.failed as i64)),
        ],
    )
}

/// Poll counts decode back to themselves while they fit the wire's signed
/// integers.
pub proof fn lemma_check_counts_round_trip(c: BatchCheckCounts)
    requires
        c.total <= i64::MAX,
        c.completed <= i64::MAX,
        c.failed <= i64::MAX,
    ensures
        dec_check_counts(enc_check_counts(c)) == Some(c),
{
    broadcast use vstd::string::group_string_axioms;

    reveal_with_fuel(crate::json::obj_get_v, 5);
    reveal_strlit("total");
    reveal_strlit("completed");
    reveal_strlit("failed");
    assert("total"@.len() == 5);
    assert("completed"@.len() == 9);
    assert("failed"@.len() == 6);
}

pub open spec fn enc_create_response(r: BatchCreateResponseV) -> JsonV {
    JsonV::Obj(
        seq![
            ("id"@, JsonV::Str(r.id)),
            ("method"@, enc_method(r.method)),
            ("counts"@, enc_create_counts(r.counts)),
            ("status"@, enc_status(r.status)),
            ("created_at"@, JsonV::Int(r.created_at)),
            ("updated_at"@, JsonV::Int(r.updated_at)),
        ],
    )
}

/// A submission acknowledgement decodes back to itself while its count fits
/// the wire's signed integers.
pub proof fn lemma_create_response_round_trip(r: BatchCreateResponseV)
    requires
        r.counts.total <= i64::MAX,
    ensures
        dec_create_response(enc_create_response(r)) == Some(r),
{
    broadcast use vstd::string::group_string_axioms;

    reveal_with_fuel(crate::json::obj_get_v, 8);
    reveal_strlit("id");
    reveal_strlit("method");
    reveal_strlit("counts");
    reveal_strlit("status");
    reveal_strlit("created_at");
    reveal_strlit("updated_at");
    reveal_strlit("total");
    assert("id"@.len() == 2);
    assert("method"@.len() == 6);
    assert("counts"@.len() == 6);
    assert("status"@.len() == 6);
    assert("created_at"@.len() == 10);
    assert("updated_at"@.len() == 10);
    assert("total"@.len() == 5);
    assert("method"@[0] == 'm');
    assert("counts"@[0] == 'c');
    assert("status"@[0] == 's');
    assert("created_at"@[0] == 'c');
    assert("counts"@[1] == 'o');
    assert("created_at"@[1] == 'r');
    assert("created_at"@[0] == 'c' && "updated_at"@[0] == 'u');
    lemma_method_round_trip(r.method);
    lemma_status_round_trip(r.status);
}

pub open spec fn enc_check_response(r: BatchCheckResponseV) -> JsonV {
    JsonV::Obj(
        seq![
            ("id"@, JsonV::Str(r.id)),
            ("method"@, enc_method(r.method)),
            ("request_counts"@, enc_check_counts(r.request_counts)),
            ("status"@, enc_status(r.status)),
            (
                "output_file_id"@,
                match r.output_file_id {
                    Some(s) => JsonV::Str(s),
                    None => JsonV::Null,
                },
            ),
            ("created_at"@, JsonV::Int(r.created_at)),
            ("updated_at"@, JsonV::Int(r.updated_at)),
        ],
    )
}

/// A poll body decodes back to itself while its counts fit the wire's signed
/// integers.
pub proof fn lemma_batch_check_response_round_trip(r: BatchCheckResponseV)
    requires
        r.request_counts.total <= i64::MAX,
        r.request_counts.completed <= i64::MAX,
        r.request_counts.failed <= i64::MAX,
    ensures
        dec_check_response(enc_check_response(r)) == Some(r),
{
    broadcast use vstd::string::group_string_axioms;

    reveal_with_fuel(crate::json::obj_get_v, 9);
    reveal_strlit("id");
    reveal_strlit("method");
    reveal_strlit("request_counts");
    reveal_strlit("status");
    reveal_strlit("output_file_id");
    reveal_strlit("created_at");
    reveal_strlit("updated_at");
    assert("id"@.len() == 2);
    assert("method"@.len() == 6);
    assert("request_counts"@.len() == 14);
    assert("status"@.len() == 6);
    assert("output_file_id"@.len() == 14);
    assert("created_at"@.len() == 10);
    assert("updated_at"@.len() == 10);
    assert("method"@[0] == 'm');
    assert("status"@[0] == 's');
    assert("request_counts"@[0] == 'r');
    assert("output_file_id"@[0] == 'o');
    assert("created_at"@[0] == 'c');
    assert("updated_at"@[0] == 'u');
    lemma_method_round_trip(r.method);
    lemma_status_round_trip(r.status);
    lemma_check_counts_round_trip(r.request_counts);
}

/// One output line on the wire: the decimal key and the tagged outcome.
pub open spec fn enc_output_line(key: usize, res: BatchResponseResultV) -> JsonV {
    JsonV::Obj(
        seq![("key"@, JsonV::Str(nat_digits(key as nat)))] + (match res {
            BatchResponseResultV::Response(r) => seq![
                ("result"@, crate::generation::enc_response(r)),
            ],
            BatchResponseResultV::Error(e) => seq![("error"@, enc_item_error(e))],
        }),
    )
}

/// An output line decodes back to itself, under the same wire limits as a
/// response.
pub proof fn lemma_output_line_round_trip(key: usize, res: BatchResponseResultV)
    requires
        res matches BatchResponseResultV::Response(r) ==> !crate::generation::custom_model_collides(
            r.model,
        ) && (forall|i: int| 0 <= i < r.choices.len() ==> (#[trigger] r.choices[i]).index
            <= i64::MAX),
    ensures
        dec_output_line(enc_output_line(key, res)) == Some((key, res)),
{
    broadcast use vstd::string::group_string_axioms;

    reveal_with_fuel(crate::json::obj_get_v, 4);
    reveal_strlit("key");
    reveal_strlit("result");
    reveal_strlit("error");
    assert("key"@.len() == 3);
    assert("result"@.len() == 6);
    assert("error"@.len() == 5);
    lemma_digits_round_trip(key as nat);
    let j = enc_output_line(key, res);
    let f = j->Obj_0;
    assert(crate::json::get_str_v(f, "key"@) == Some(nat_digits(key as nat)));
    assert(key_val(nat_digits(key as nat)) == Some(key));
    match res {
        BatchResponseResultV::Response(r) => {
            crate::generation::lemma_response_round_trip(r);
            assert(obj_get_v(f, "result"@) == Some(crate::generation::enc_response(r)));
        },
        BatchResponseResultV::Error(e) => {
            lemma_item_error_round_trip(e);
            assert(obj_get_v(f, "result"@) is None);
            assert(obj_get_v(f, "error"@) == Some(enc_item_error(e)));
        },
    }
}


impl BatchCreateResponse {
    /// The whole decode step over one success body: the bytes must parse as
    /// JSON and read as this shape; anything else fails with `ParseResponse`
    /// carrying the bytes.
    pub fn from_body(bytes: &[u8]) -> (r: Result<BatchCreateResponse, crate::executor::RequestError>)
        ensures
            match r {
                Ok(resp) => crate::json::json_of_bytes(bytes@) matches Some(j) && dec_create_response(j)
                    == Some(resp.dv()),
                Err(e) => {
                    &&& (crate::json::json_of_bytes(bytes@) is None || dec_create_response(
                        crate::json::json_of_bytes(bytes@)->Some_0,
                    ) is None)
                    &&& e matches crate::executor::RequestError::ParseResponse { raw } && raw@
                        == bytes@
                },
            },
    {
        match crate::json::parse_json_bytes(bytes) {
            Some(j) => match BatchCreateResponse::from_json(&j) {
                Some(resp) => Ok(resp),
                None => Err(
                    crate::executor::RequestError::ParseResponse {
                        raw: crate::json::copy_bytes(bytes),
                    },
                ),
            },
            None => Err(
                crate::executor::RequestError::ParseResponse { raw: crate::json::copy_bytes(bytes) },
            ),
        }
    }
}


impl BatchCheckResponse {
    /// The whole decode step over one success body: the bytes must parse as
    /// JSON and read as this shape; anything else fails with `ParseResponse`
    /// carrying the bytes.
    pub fn from_body(bytes: &[u8]) -> (r: Result<BatchCheckResponse, crate::executor::RequestError>)
        ensures
            match r {
                Ok(resp) => crate::json::json_of_bytes(bytes@) matches Some(j) && dec_check_response(j)
                    == Some(resp.dv()),
                Err(e) => {
                    &&& (crate::json::json_of_bytes(bytes@) is None || dec_check_response(
                        crate::json::json_of_bytes(bytes@)->Some_0,
                    ) is None)
                    &&& e matches crate::executor::RequestError::ParseResponse { raw } && raw@
                        == bytes@
                },
            },
    {
        match crate::json::parse_json_bytes(bytes) {
            Some(j) => match BatchCheckResponse::from_json(&j) {
                Some(resp) => Ok(resp),
                None => Err(
                    crate::executor::RequestError::ParseResponse {
                        raw: crate::json::copy_bytes(bytes),
                    },
                ),
            },
            None => Err(
                crate::executor::RequestError::ParseResponse { raw: crate::json::copy_bytes(bytes) },
            ),
        }
    }
}

} // verus!
