use vstd::prelude::*;

use crate::function::{
    dec_function_name, dec_user_function, enc_function_name, enc_user_function, FunctionName,
    UserFunction, UserFunctionV,
};
use crate::json::{
    field_i64, field_str, field_u32, field_usize, get_i64_v, get_str_v, get_u32_v, get_usize_v,
    jv_of, jv_of_fields, jv_of_seq, obj_get, obj_get_v, Json, JsonV,
};

verus! {

/// The catalogue of text-generation models, with an escape hatch for names
/// the catalogue does not know yet.
#[derive(Debug, Clone, PartialEq, Eq)]
pub enum Model {
    /// The base model, for everyday tasks that want speed.
    GigaChat2Lite,
    /// The stronger model, for tasks that want precision.
    GigaChat2Pro,
    /// The strongest model in the line.
    GigaChat2Max,
    /// Any other model, named by its raw identifier.
    Custom(String),
}

/// The mathematical shape of a [`Model`].
#[verifier::ext_equal]
pub enum ModelV {
    GigaChat2Lite,
    GigaChat2Pro,
    GigaChat2Max,
    Custom(Seq<char>),
}

impl Model {
    pub open spec fn dv(&self) -> ModelV {
        match self {
            Model::GigaChat2Lite => ModelV::GigaChat2Lite,
            Model::GigaChat2Pro => ModelV::GigaChat2Pro,
            Model::GigaChat2Max => ModelV::GigaChat2Max,
            Model::Custom(s) => ModelV::Custom(s@),
        }
    }
}

impl Default for Model {
    fn default() -> (r: Self)
        ensures
            r == Model::GigaChat2Max,
    {
        Model::GigaChat2Max
    }
}

/// A model on the wire: its catalogue identifier, or the raw custom name.
pub open spec fn enc_model(m: ModelV) -> JsonV {
    match m {
        ModelV::GigaChat2Lite => JsonV::Str("GigaChat-2"@),
        ModelV::GigaChat2Pro => JsonV::Str("GigaChat-2-Pro"@),
        ModelV::GigaChat2Max => JsonV::Str("GigaChat-2-Max"@),
        ModelV::Custom(s) => JsonV::Str(s),
    }
}

/// Reads a model off the wire: catalogue identifiers first, anything else a
/// custom name.
pub open spec fn dec_model(j: JsonV) -> Option<ModelV> {
    match j {
        JsonV::Str(s) => Some(
            if s == "GigaChat-2"@ {
                ModelV::GigaChat2Lite
            } else if s == "GigaChat-2-Pro"@ {
                ModelV::GigaChat2Pro
            } else if s == "GigaChat-2-Max"@ {
                ModelV::GigaChat2Max
            } else {
                ModelV::Custom(s)
            },
        ),
        _ => None,
    }
}

impl Model {
    /// Encodes this model as its wire string.
    pub fn to_json(&self) -> (j: Json)
        ensures
            j.deep_view() == enc_model(self.dv()),
    {
        match self {
            Model::GigaChat2Lite => Json::Str("GigaChat-2".to_owned()),
            Model::GigaChat2Pro => Json::Str("GigaChat-2-Pro".to_owned()),
            Model::GigaChat2Max => Json::Str("GigaChat-2-Max".to_owned()),
            Model::Custom(s) => Json::Str(s.clone()),
        }
    }

    /// Decodes a wire string into a model.
    pub fn from_json(j: &Json) -> (r: Option<Model>)
        ensures
            match r {
                Some(m) => dec_model(j.deep_view()) == Some(m.dv()),
                None => dec_model(j.deep_view()) is None,
            },
    {
        match j.as_str() {
            Some(s) => {
                if *s == "GigaChat-2".to_owned() {
                    Some(Model::GigaChat2Lite)
                } else if *s == "GigaChat-2-Pro".to_owned() {
                    Some(Model::GigaChat2Pro)
                } else if *s == "GigaChat-2-Max".to_owned() {
                    Some(Model::GigaChat2Max)
                } else {
                    Some(Model::Custom(s.clone()))
                }
            },
            None => None,
        }
    }
}

/// True of a custom model name that collides with a catalogue identifier:
/// such a name decodes to the catalogue entry, not back to `Custom`.
pub open spec fn custom_model_collides(m: ModelV) -> bool {
    m matches ModelV::Custom(s) && (s == "GigaChat-2"@ || s == "GigaChat-2-Pro"@ || s
        == "GigaChat-2-Max"@)
}

/// A model decodes back to itself, custom names that shadow a catalogue
/// identifier excepted.
pub proof fn lemma_model_round_trip(m: ModelV)
    requires
        !custom_model_collides(m),
    ensures
        dec_model(enc_model(m)) == Some(m),
{
    broadcast use vstd::string::group_string_axioms;

    reveal_strlit("GigaChat-2");
    reveal_strlit("GigaChat-2-Pro");
    reveal_strlit("GigaChat-2-Max");
    assert("GigaChat-2"@.len() == 10);
    assert("GigaChat-2-Pro"@.len() == 14);
    assert("GigaChat-2-Max"@.len() == 14);
    assert("GigaChat-2-Pro"@[11] == 'P');
    assert("GigaChat-2-Max"@[11] == 'M');
}

/// Why the model stopped generating.
#[derive(Debug, Clone, Copy, PartialEq, Eq, Structural)]
pub enum FinishReason {
    Stop,
    Length,
    ContentFilter,
    FunctionCall,
    Blacklist,
    Error,
}

/// A finish reason on the wire.
pub open spec fn enc_finish_reason(f: FinishReason) -> JsonV {
    match f {
        FinishReason::Stop => JsonV::Str("stop"@),
        FinishReason::Length => JsonV::Str("length"@),
        FinishReason::ContentFilter => JsonV::Str("content_filter"@),
        FinishReason::FunctionCall => JsonV::Str("function_call"@),
        FinishReason::Blacklist => JsonV::Str("blacklist"@),
        FinishReason::Error => JsonV::Str("error"@),
    }
}

/// Reads a finish reason off the wire.
pub open spec fn dec_finish_reason(j: JsonV) -> Option<FinishReason> {
    match j {
        JsonV::Str(s) => if s == "stop"@ {
            Some(FinishReason::Stop)
        } else if s == "length"@ {
            Some(FinishReason::Length)
        } else if s == "content_filter"@ {
            Some(FinishReason::ContentFilter)
        } else if s == "function_call"@ {
            Some(FinishReason::FunctionCall)
        } else if s == "blacklist"@ {
            Some(FinishReason::Blacklist)
        } else if s == "error"@ {
            Some(FinishReason::Error)
        } else {
            None
        },
        _ => None,
    }
}

impl FinishReason {
    /// Encodes this finish reason as its wire string.
    pub fn to_json(&self) -> (j: Json)
        ensures
            j.deep_view() == enc_finish_reason(*self),
    {
        match self {
            FinishReason::Stop => Json::Str("stop".to_owned()),
            FinishReason::Length => Json::Str("length".to_owned()),
            FinishReason::ContentFilter => Json::Str("content_filter".to_owned()),
            FinishReason::FunctionCall => Json::Str("function_call".to_owned()),
            FinishReason::Blacklist => Json::Str("blacklist".to_owned()),
            FinishReason::Error => Json::Str("error".to_owned()),
        }
    }

    /// Decodes a wire string into a finish reason.
    pub fn from_json(j: &Json) -> (r: Option<FinishReason>)
        ensures
            r == dec_finish_reason(j.deep_view()),
    {
        match j.as_str() {
            Some(s) => {
                if *s == "stop".to_owned() {
                    Some(FinishReason::Stop)
                } else if *s == "length".to_owned() {
                    Some(FinishReason::Length)
                } else if *s == "content_filter".to_owned() {
                    Some(FinishReason::ContentFilter)
                } else if *s == "function_call".to_owned() {
                    Some(FinishReason::FunctionCall)
                } else if *s == "blacklist".to_owned() {
                    Some(FinishReason::Blacklist)
                } else if *s == "error".to_owned() {
                    Some(FinishReason::Error)
                } else {
                    None
                }
            },
            None => None,
        }
    }
}

/// A finish reason decodes back to itself.
pub proof fn lemma_finish_reason_round_trip(f: FinishReason)
    ensures
        dec_finish_reason(enc_finish_reason(f)) == Some(f),
{
    broadcast use vstd::string::group_string_axioms;

    reveal_strlit("stop");
    reveal_strlit("length");
    reveal_strlit("content_filter");
    reveal_strlit("function_call");
    reveal_strlit("blacklist");
    reveal_strlit("error");
    assert("stop"@.len() == 4);
    assert("length"@.len() == 6);
    assert("content_filter"@.len() == 14);
    assert("function_call"@.len() == 13);
    assert("blacklist"@.len() == 9);
    assert("error"@.len() == 5);
}

/// Token accounting for one exchange.
#[derive(Debug, Clone, Copy, PartialEq, Eq, Structural, Default)]
pub struct Usage {
    /// Tokens in the prompt.
    pub prompt_tokens: u32,
    /// Tokens the model generated.
    pub completion_tokens: u32,
    /// Previously cached prompt tokens, deducted from the billed total.
    pub precached_prompt_tokens: u32,
    /// All tokens together.
    pub total_tokens: u32,
}

/// Usage on the wire.
pub open spec fn enc_usage(u: Usage) -> JsonV {
    JsonV::Obj(
        seq![
            ("prompt_tokens"@, JsonV::Int(u.prompt_tokens as i64)),
            ("completion_tokens"@, JsonV::Int(u.completion_tokens as i64)),
            ("precached_prompt_tokens"@, JsonV::Int(u.precached_prompt_tokens as i64)),
            ("total_tokens"@, JsonV::Int(u.total_tokens as i64)),
        ],
    )
}

/// Reads usage off the wire.
pub open spec fn dec_usage(j: JsonV) -> Option<Usage> {
    match j {
        JsonV::Obj(f) => match (
            get_u32_v(f, "prompt_tokens"@),
            get_u32_v(f, "completion_tokens"@),
            get_u32_v(f, "precached_prompt_tokens"@),
            get_u32_v(f, "total_tokens"@),
        ) {
            (Some(p), Some(c), Some(pc), Some(t)) => Some(
                Usage {
                    prompt_tokens: p,
                    completion_tokens: c,
                    precached_prompt_tokens: pc,
                    total_tokens: t,
                },
            ),
            _ => None,
        },
        _ => None,
    }
}

impl Usage {
    /// Encodes this usage as its wire object.
    pub fn to_json(&self) -> (j: Json)
        ensures
            j.deep_view() == enc_usage(*self),
    {
        broadcast use crate::json::lemma_jv_of_fields_is_map;

        let mut f: Vec<(String, Json)> = Vec::new();
        f.push(("prompt_tokens".to_owned(), Json::Int(self.prompt_tokens as i64)));
        f.push(("completion_tokens".to_owned(), Json::Int(self.completion_tokens as i64)));
        f.push(
            ("precached_prompt_tokens".to_owned(), Json::Int(self.precached_prompt_tokens as i64)),
        );
        f.push(("total_tokens".to_owned(), Json::Int(self.total_tokens as i64)));
        let j = Json::Obj(f);
        proof {
            assert(jv_of_fields(f@) =~= enc_usage(*self)->Obj_0);
        }
        j
    }

    /// Decodes a wire object into usage.
    pub fn from_json(j: &Json) -> (r: Option<Usage>)
        ensures
            r == dec_usage(j.deep_view()),
    {
        match j.as_obj() {
            Some(fields) => match (
                field_u32(fields, "prompt_tokens"),
                field_u32(fields, "completion_tokens"),
                field_u32(fields, "precached_prompt_tokens"),
                field_u32(fields, "total_tokens"),
            ) {
                (Some(p), Some(c), Some(pc), Some(t)) => Some(
                    Usage {
                        prompt_tokens: p,
                        completion_tokens: c,
                        precached_prompt_tokens: pc,
                        total_tokens: t,
                    },
                ),
                _ => None,
            },
            None => None,
        }
    }
}

/// Usage decodes back to itself.
pub proof fn lemma_usage_round_trip(u: Usage)
    ensures
        dec_usage(enc_usage(u)) == Some(u),
{
    broadcast use vstd::string::group_string_axioms;

    reveal_with_fuel(crate::json::obj_get_v, 8);
    reveal_strlit("prompt_tokens");
    reveal_strlit("completion_tokens");
    reveal_strlit("precached_prompt_tokens");
    reveal_strlit("total_tokens");
    assert("prompt_tokens"@.len() == 13);
    assert("completion_tokens"@.len() == 17);
    assert("precached_prompt_tokens"@.len() == 23);
    assert("total_tokens"@.len() == 12);
}

/// The function call the model asks its caller to make: the function's name
/// and the argument values, an arbitrary tree.
#[derive(Debug, PartialEq)]
pub struct FunctionCallResponse {
    pub name: FunctionName,
    pub arguments: Json,
}

/// The mathematical shape of a [`FunctionCallResponse`].
#[verifier::ext_equal]
pub struct FunctionCallResponseV {
    pub name: Seq<char>,
    pub arguments: JsonV,
}

impl FunctionCallResponse {
    pub open spec fn dv(&self) -> FunctionCallResponseV {
        FunctionCallResponseV { name: self.name.dv(), arguments: jv_of(self.arguments) }
    }
}

/// A requested call on the wire: the name inline beside the arguments.
pub open spec fn enc_fcr(f: FunctionCallResponseV) -> JsonV {
    JsonV::Obj(seq![("name"@, JsonV::Str(f.name)), ("arguments"@, f.arguments)])
}

/// Reads a requested call off the wire.
pub open spec fn dec_fcr(j: JsonV) -> Option<FunctionCallResponseV> {
    match j {
        JsonV::Obj(f) => match (get_str_v(f, "name"@), obj_get_v(f, "arguments"@)) {
            (Some(n), Some(a)) => Some(FunctionCallResponseV { name: n, arguments: a }),
            _ => None,
        },
        _ => None,
    }
}

impl FunctionCallResponse {
    /// Encodes this requested call as its wire object.
    pub fn to_json(&self) -> (j: Json)
        ensures
            j.deep_view() == enc_fcr(self.dv()),
    {
        broadcast use crate::json::lemma_jv_of_fields_is_map;

        let mut f: Vec<(String, Json)> = Vec::new();
        f.push(("name".to_owned(), Json::Str(self.name.name().to_owned())));
        f.push(("arguments".to_owned(), self.arguments.deep_clone()));
        let j = Json::Obj(f);
        proof {
            assert(jv_of_fields(f@) =~= enc_fcr(self.dv())->Obj_0);
        }
        j
    }

    /// Decodes a wire object into a requested call.
    pub fn from_json(j: &Json) -> (r: Option<FunctionCallResponse>)
        ensures
            match r {
                Some(f) => dec_fcr(j.deep_view()) == Some(f.dv()),
                None => dec_fcr(j.deep_view()) is None,
            },
    {
        match j.as_obj() {
            Some(fields) => match (field_str(fields, "name"), obj_get(fields, "arguments")) {
                (Some(n), Some(a)) => Some(
                    FunctionCallResponse { name: FunctionName::new(n), arguments: a.deep_clone() },
                ),
                _ => None,
            },
            None => None,
        }
    }
}

/// A requested call decodes back to itself.
pub proof fn lemma_fcr_round_trip(f: FunctionCallResponseV)
    ensures
        dec_fcr(enc_fcr(f)) == Some(f),
{
    broadcast use vstd::string::group_string_axioms;

    reveal_with_fuel(crate::json::obj_get_v, 4);
    reveal_strlit("name");
    reveal_strlit("arguments");
    assert("name"@.len() == 4);
    assert("arguments"@.len() == 9);
}

/// One message of a conversation, tagged by the role that speaks it.
#[derive(Debug, PartialEq)]
pub enum Message {
    /// The system prompt.
    System { content: String },
    /// What the user said.
    User { content: String },
    /// What the model answered, possibly asking for a function call.
    Assistant { content: String, function_call: Option<FunctionCallResponse> },
    /// A function's result handed back to the model; the content is the
    /// result's JSON text.
    Function { name: FunctionName, content: String },
}

/// The mathematical shape of a [`Message`].
#[verifier::ext_equal]
pub enum MessageV {
    System { content: Seq<char> },
    User { content: Seq<char> },
    Assistant { content: Seq<char>, function_call: Option<FunctionCallResponseV> },
    Function { name: Seq<char>, content: Seq<char> },
}

impl Message {
    pub open spec fn dv(&self) -> MessageV {
        match self {
            Message::System { content } => MessageV::System { content: content@ },
            Message::User { content } => MessageV::User { content: content@ },
            Message::Assistant { content, function_call } => MessageV::Assistant {
                content: content@,
                function_call: match function_call {
                    Some(f) => Some(f.dv()),
                    None => None,
                },
            },
            Message::Function { name, content } => MessageV::Function {
                name: name.dv(),
                content: content@,
            },
        }
    }

    /// A system message.
    pub fn system(content: String) -> (r: Message)
        ensures
            r.dv() == (MessageV::System { content: content@ }),
    {
        Message::System { content }
    }

    /// A user message.
    pub fn user(content: String) -> (r: Message)
        ensures
            r.dv() == (MessageV::User { content: content@ }),
    {
        Message::User { content }
    }

    /// A function-result message: the result tree is printed once, here, and
    /// carried as text.
    pub fn function(name: FunctionName, content: &Json) -> (r: Message)
        ensures
            r.dv() matches MessageV::Function { name: n, content: c } && n == name.dv() && c
                == crate::json::json_text_chars_of(content.deep_view()),
    {
        Message::Function { name, content: crate::json::render_json_string(content) }
    }
}

/// A message on the wire: the role tag first, then the role's fields; an
/// assistant's absent call is an explicit `null`.
pub open spec fn enc_message(m: MessageV) -> JsonV {
    match m {
        MessageV::System { content } => JsonV::Obj(
            seq![("role"@, JsonV::Str("system"@)), ("content"@, JsonV::Str(content))],
        ),
        MessageV::User { content } => JsonV::Obj(
            seq![("role"@, JsonV::Str("user"@)), ("content"@, JsonV::Str(content))],
        ),
        MessageV::Assistant { content, function_call } => JsonV::Obj(
            seq![
                ("role"@, JsonV::Str("assistant"@)),
                ("content"@, JsonV::Str(content)),
                (
                    "function_call"@,
                    match function_call {
                        Some(f) => enc_fcr(f),
                        None => JsonV::Null,
                    },
                ),
            ],
        ),
        MessageV::Function { name, content } => JsonV::Obj(
            seq![
                ("role"@, JsonV::Str("function"@)),
                ("name"@, JsonV::Str(name)),
                ("content"@, JsonV::Str(content)),
            ],
        ),
    }
}

/// Reads an assistant's optional requested call: absent and `null` both read
/// as no call.
pub open spec fn dec_opt_fcr(f: Seq<(Seq<char>, JsonV)>) -> Option<Option<FunctionCallResponseV>> {
    match obj_get_v(f, "function_call"@) {
        None => Some(None),
        Some(JsonV::Null) => Some(None),
        Some(x) => match dec_fcr(x) {
            Some(fc) => Some(Some(fc)),
            None => None,
        },
    }
}

/// Reads a message off the wire, dispatching on the role tag.
pub open spec fn dec_message(j: JsonV) -> Option<MessageV> {
    match j {
        JsonV::Obj(f) => match get_str_v(f, "role"@) {
            Some(role) => if role == "system"@ {
                match get_str_v(f, "content"@) {
                    Some(c) => Some(MessageV::System { content: c }),
                    None => None,
                }
            } else if role == "user"@ {
                match get_str_v(f, "content"@) {
                    Some(c) => Some(MessageV::User { content: c }),
                    None => None,
                }
            } else if role == "assistant"@ {
                match (get_str_v(f, "content"@), dec_opt_fcr(f)) {
                    (Some(c), Some(fc)) => Some(
                        MessageV::Assistant { content: c, function_call: fc },
                    ),
                    _ => None,
                }
            } else if role == "function"@ {
                match (get_str_v(f, "name"@), get_str_v(f, "content"@)) {
                    (Some(n), Some(c)) => Some(MessageV::Function { name: n, content: c }),
                    _ => None,
                }
            } else {
                None
            },
            None => None,
        },
        _ => None,
    }
}

impl Message {
    /// Encodes this message as its wire object.
    pub fn to_json(&self) -> (j: Json)
        ensures
            j.deep_view() == enc_message(self.dv()),
    {
        broadcast use crate::json::lemma_jv_of_fields_is_map;

        match self {
            Message::System { content } => {
                let mut f: Vec<(String, Json)> = Vec::new();
                f.push(("role".to_owned(), Json::Str("system".to_owned())));
                f.push(("content".to_owned(), Json::Str(content.clone())));
                let j = Json::Obj(f);
                proof {
                    assert(jv_of_fields(f@) =~= enc_message(self.dv())->Obj_0);
                }
                j
            },
            Message::User { content } => {
                let mut f: Vec<(String, Json)> = Vec::new();
                f.push(("role".to_owned(), Json::Str("user".to_owned())));
                f.push(("content".to_owned(), Json::Str(content.clone())));
                let j = Json::Obj(f);
                proof {
                    assert(jv_of_fields(f@) =~= enc_message(self.dv())->Obj_0);
                }
                j
            },
            Message::Assistant { content, function_call } => {
                let mut f: Vec<(String, Json)> = Vec::new();
                f.push(("role".to_owned(), Json::Str("assistant".to_owned())));
                f.push(("content".to_owned(), Json::Str(content.clone())));
                let fc = match function_call {
                    Some(c) => c.to_json(),
                    None => Json::Null,
                };
                f.push(("function_call".to_owned(), fc));
                let j = Json::Obj(f);
                proof {
                    assert(jv_of_fields(f@) =~= enc_message(self.dv())->Obj_0);
                }
                j
            },
            Message::Function { name, content } => {
                let mut f: Vec<(String, Json)> = Vec::new();
                f.push(("role".to_owned(), Json::Str("function".to_owned())));
                f.push(("name".to_owned(), Json::Str(name.name().to_owned())));
                f.push(("content".to_owned(), Json::Str(content.clone())));
                let j = Json::Obj(f);
                proof {
                    assert(jv_of_fields(f@) =~= enc_message(self.dv())->Obj_0);
                }
                j
            },
        }
    }

    /// Decodes a wire object into a message.
    pub fn from_json(j: &Json) -> (r: Option<Message>)
        ensures
            match r {
                Some(m) => dec_message(j.deep_view()) == Some(m.dv()),
                None => dec_message(j.deep_view()) is None,
            },
    {
        let fields = match j.as_obj() {
            Some(f) => f,
            None => {
                return None;
            },
        };
        let role = match field_str(fields, "role") {
            Some(rl) => rl,
            None => {
                return None;
            },
        };
        if role == "system".to_owned() {
            match field_str(fields, "content") {
                Some(c) => Some(Message::System { content: c }),
                None => None,
            }
        } else if role == "user".to_owned() {
            match field_str(fields, "content") {
                Some(c) => Some(Message::User { content: c }),
                None => None,
            }
        } else if role == "assistant".to_owned() {
            let content = match field_str(fields, "content") {
                Some(c) => c,
                None => {
                    return None;
                },
            };
            let function_call = match obj_get(fields, "function_call") {
                None => None,
                Some(Json::Null) => None,
                Some(x) => match FunctionCallResponse::from_json(x) {
                    Some(fc) => Some(fc),
                    None => {
                        return None;
                    },
                },
            };
            Some(Message::Assistant { content, function_call })
        } else if role == "function".to_owned() {
            match (field_str(fields, "name"), field_str(fields, "content")) {
                (Some(n), Some(c)) => Some(
                    Message::Function { name: FunctionName::new(n), content: c },
                ),
                _ => None,
            }
        } else {
            None
        }
    }
}

/// A message decodes back to itself.
pub proof fn lemma_message_round_trip(m: MessageV)
    ensures
        dec_message(enc_message(m)) == Some(m),
{
    broadcast use vstd::string::group_string_axioms;

    reveal_with_fuel(crate::json::obj_get_v, 6);
    reveal_strlit("role");
    reveal_strlit("content");
    reveal_strlit("function_call");
    reveal_strlit("name");
    reveal_strlit("system");
    reveal_strlit("user");
    reveal_strlit("assistant");
    reveal_strlit("function");
    assert("role"@.len() == 4);
    assert("content"@.len() == 7);
    assert("function_call"@.len() == 13);
    assert("name"@.len() == 4);
    assert("role"@[0] == 'r');
    assert("name"@[0] == 'n');
    assert("system"@.len() == 6);
    assert("user"@.len() == 4);
    assert("assistant"@.len() == 9);
    assert("function"@.len() == 8);
    match m {
        MessageV::Assistant { content, function_call } => {
            match function_call {
                Some(f) => {
                    assert(enc_fcr(f) is Obj);
                    lemma_fcr_round_trip(f);
                },
                None => {},
            }
        },
        _ => {},
    }
}

/// The optional sampling knobs of one generation request. The sampling
/// parameters are carried as the decimal text that will stand in the JSON
/// body, uninterpreted by the library.
#[derive(Debug, PartialEq, Clone)]
pub struct GenerationConfig {
    pub temperature: Option<String>,
    pub top_p: Option<String>,
    pub stream: bool,
    pub max_tokens: Option<usize>,
    pub repetition_penalty: Option<String>,
}

/// The mathematical shape of a [`GenerationConfig`].
#[verifier::ext_equal]
pub struct GenerationConfigV {
    pub temperature: Option<Seq<char>>,
    pub top_p: Option<Seq<char>>,
    pub stream: bool,
    pub max_tokens: Option<usize>,
    pub repetition_penalty: Option<Seq<char>>,
}

impl GenerationConfig {
    pub open spec fn dv(&self) -> GenerationConfigV {
        GenerationConfigV {
            temperature: match self.temperature {
                Some(t) => Some(t@),
                None => None,
            },
            top_p: match self.top_p {
                Some(t) => Some(t@),
                None => None,
            },
            stream: self.stream,
            max_tokens: self.max_tokens,
            repetition_penalty: match self.repetition_penalty {
                Some(t) => Some(t@),
                None => None,
            },
        }
    }
}

impl Default for GenerationConfig {
    fn default() -> (r: Self)
        ensures
            r.temperature is None,
            r.top_p is None,
            r.stream == false,
            r.max_tokens is None,
            r.repetition_penalty is None,
    {
        GenerationConfig {
            temperature: None,
            top_p: None,
            stream: false,
            max_tokens: None,
            repetition_penalty: None,
        }
    }
}

/// The request fields the sampling knobs contribute: an unset knob is
/// omitted, `stream` always written.
pub open spec fn enc_config_fields(c: GenerationConfigV) -> Seq<(Seq<char>, JsonV)> {
    (match c.temperature {
        Some(t) => seq![("temperature"@, JsonV::Num(t))],
        None => Seq::empty(),
    }) + (match c.top_p {
        Some(t) => seq![("top_p"@, JsonV::Num(t))],
        None => Seq::empty(),
    }) + seq![("stream"@, JsonV::Bool(c.stream))] + (match c.max_tokens {
        Some(m) => seq![("max_tokens"@, JsonV::Int(m as i64))],
        None => Seq::empty(),
    }) + (match c.repetition_penalty {
        Some(t) => seq![("repetition_penalty"@, JsonV::Num(t))],
        None => Seq::empty(),
    })
}

/// Reads the sampling knobs back out of a request object.
pub open spec fn dec_config_fields(f: Seq<(Seq<char>, JsonV)>) -> Option<GenerationConfigV> {
    match (
        crate::json::get_opt_num_v(f, "temperature"@),
        crate::json::get_opt_num_v(f, "top_p"@),
        crate::json::get_bool_or_false_v(f, "stream"@),
        crate::json::get_opt_usize_v(f, "max_tokens"@),
        crate::json::get_opt_num_v(f, "repetition_penalty"@),
    ) {
        (Some(t), Some(tp), Some(st), Some(mt), Some(rp)) => Some(
            GenerationConfigV {
                temperature: t,
                top_p: tp,
                stream: st,
                max_tokens: mt,
                repetition_penalty: rp,
            },
        ),
        _ => None,
    }
}

/// How the model may call functions: not at all, at its own judgement, or
/// exactly the one named.
#[derive(Debug, PartialEq)]
pub enum FunctionCall {
    NoCall,
    Auto,
    Manual(FunctionName),
}

/// The mathematical shape of a [`FunctionCall`].
#[verifier::ext_equal]
pub enum FunctionCallV {
    NoCall,
    Auto,
    Manual(Seq<char>),
}

impl FunctionCall {
    pub open spec fn dv(&self) -> FunctionCallV {
        match self {
            FunctionCall::NoCall => FunctionCallV::NoCall,
            FunctionCall::Auto => FunctionCallV::Auto,
            FunctionCall::Manual(n) => FunctionCallV::Manual(n.dv()),
        }
    }
}

impl Default for FunctionCall {
    fn default() -> (r: Self)
        ensures
            r == FunctionCall::NoCall,
    {
        FunctionCall::NoCall
    }
}

/// A call policy on the wire: `"none"`, `"auto"`, or the named function.
pub open spec fn enc_function_call(c: FunctionCallV) -> JsonV {
    match c {
        FunctionCallV::NoCall => JsonV::Str("none"@),
        FunctionCallV::Auto => JsonV::Str("auto"@),
        FunctionCallV::Manual(n) => enc_function_name(n),
    }
}

/// Reads a call policy off the wire.
pub open spec fn dec_function_call(j: JsonV) -> Option<FunctionCallV> {
    match j {
        JsonV::Str(s) => if s == "none"@ {
            Some(FunctionCallV::NoCall)
        } else if s == "auto"@ {
            Some(FunctionCallV::Auto)
        } else {
            None
        },
        JsonV::Obj(_) => match dec_function_name(j) {
            Some(n) => Some(FunctionCallV::Manual(n)),
            None => None,
        },
        _ => None,
    }
}

impl FunctionCall {
    /// Encodes this call policy as its wire form.
    pub fn to_json(&self) -> (j: Json)
        ensures
            j.deep_view() == enc_function_call(self.dv()),
    {
        match self {
            FunctionCall::NoCall => Json::Str("none".to_owned()),
            FunctionCall::Auto => Json::Str("auto".to_owned()),
            FunctionCall::Manual(n) => n.to_json(),
        }
    }
}

/// A call policy decodes back to itself.
pub proof fn lemma_function_call_round_trip(c: FunctionCallV)
    ensures
        dec_function_call(enc_function_call(c)) == Some(c),
{
    broadcast use vstd::string::group_string_axioms;

    reveal_with_fuel(crate::json::obj_get_v, 4);
    reveal_strlit("none");
    reveal_strlit("auto");
    reveal_strlit("name");
    assert("none"@.len() == 4);
    assert("auto"@.len() == 4);
    assert("none"@[0] == 'n');
    assert("auto"@[0] == 'a');
}

/// A function offered to the model: one the caller defined, or a built-in
/// named by the catalogue.
#[derive(Debug, PartialEq)]
pub enum Function {
    User(UserFunction),
    BuiltIn(FunctionName),
}

/// The mathematical shape of a [`Function`].
#[verifier::ext_equal]
pub enum FunctionV {
    User(UserFunctionV),
    BuiltIn(Seq<char>),
}

impl Function {
    pub open spec fn dv(&self) -> FunctionV {
        match self {
            Function::User(u) => FunctionV::User(u.dv()),
            Function::BuiltIn(n) => FunctionV::BuiltIn(n.dv()),
        }
    }
}

/// A function on the wire: the full definition, or just the built-in's name.
pub open spec fn enc_function(f: FunctionV) -> JsonV {
    match f {
        FunctionV::User(u) => enc_user_function(u),
        FunctionV::BuiltIn(n) => enc_function_name(n),
    }
}

/// Reads a function off the wire: a full definition wins, a bare name is a
/// built-in.
pub open spec fn dec_function(j: JsonV) -> Option<FunctionV> {
    match dec_user_function(j) {
        Some(u) => Some(FunctionV::User(u)),
        None => match dec_function_name(j) {
            Some(n) => Some(FunctionV::BuiltIn(n)),
            None => None,
        },
    }
}

impl Function {
    /// Encodes this function as its wire form.
    pub fn to_json(&self) -> (j: Json)
        ensures
            j.deep_view() == enc_function(self.dv()),
    {
        match self {
            Function::User(u) => u.to_json(),
            Function::BuiltIn(n) => n.to_json(),
        }
    }
}

/// A function decodes back to itself.
pub proof fn lemma_function_round_trip(f: FunctionV)
    ensures
        dec_function(enc_function(f)) == Some(f),
{
    broadcast use vstd::string::group_string_axioms;

    reveal_with_fuel(crate::json::obj_get_v, 8);
    reveal_strlit("name");
    reveal_strlit("parameters");
    assert("name"@.len() == 4);
    assert("parameters"@.len() == 10);
    match f {
        FunctionV::User(u) => {
            crate::function::lemma_user_function_round_trip(u);
        },
        FunctionV::BuiltIn(n) => {},
    }
}

/// Reads a whole array of messages: all decode, or the array is rejected.
pub open spec fn dec_message_seq(items: Seq<JsonV>) -> Option<Seq<MessageV>>
    decreases items.len(),
{
    if items.len() == 0 {
        Some(Seq::empty())
    } else {
        match (dec_message_seq(items.drop_last()), dec_message(items.last())) {
            (Some(s), Some(m)) => Some(s.push(m)),
            _ => None,
        }
    }
}

/// Every message array decodes back to itself.
pub proof fn lemma_message_seq_round_trip(ms: Seq<MessageV>)
    ensures
        dec_message_seq(Seq::new(ms.len(), |i: int| enc_message(ms[i]))) == Some(ms),
    decreases ms.len(),
{
    let enc = Seq::new(ms.len(), |i: int| enc_message(ms[i]));
    if ms.len() > 0 {
        lemma_message_seq_round_trip(ms.drop_last());
        lemma_message_round_trip(ms.last());
        assert(enc.drop_last() =~= Seq::new(
            ms.drop_last().len(),
            |i: int| enc_message(ms.drop_last()[i]),
        ));
        assert(dec_message_seq(enc)->Some_0 =~= ms);
    } else {
        assert(enc =~= Seq::<JsonV>::empty());
    }
}

/// Reads a whole array of functions: all decode, or the array is rejected.
pub open spec fn dec_function_seq(items: Seq<JsonV>) -> Option<Seq<FunctionV>>
    decreases items.len(),
{
    if items.len() == 0 {
        Some(Seq::empty())
    } else {
        match (dec_function_seq(items.drop_last()), dec_function(items.last())) {
            (Some(s), Some(f)) => Some(s.push(f)),
            _ => None,
        }
    }
}

/// Every function array decodes back to itself.
pub proof fn lemma_function_seq_round_trip(fs: Seq<FunctionV>)
    ensures
        dec_function_seq(Seq::new(fs.len(), |i: int| enc_function(fs[i]))) == Some(fs),
    decreases fs.len(),
{
    let enc = Seq::new(fs.len(), |i: int| enc_function(fs[i]));
    if fs.len() > 0 {
        lemma_function_seq_round_trip(fs.drop_last());
        lemma_function_round_trip(fs.last());
        assert(enc.drop_last() =~= Seq::new(
            fs.drop_last().len(),
            |i: int| enc_function(fs.drop_last()[i]),
        ));
        assert(dec_function_seq(enc)->Some_0 =~= fs);
    } else {
        assert(enc =~= Seq::<JsonV>::empty());
    }
}

/// One whole generation request.
#[derive(Debug, PartialEq)]
pub struct GenerationRequest {
    pub model: Model,
    pub messages: Vec<Message>,
    pub function_call: FunctionCall,
    pub functions: Vec<Function>,
    pub config: GenerationConfig,
}

/// The mathematical shape of a [`GenerationRequest`].
#[verifier::ext_equal]
pub struct GenerationRequestV {
    pub model: ModelV,
    pub messages: Seq<MessageV>,
    pub function_call: FunctionCallV,
    pub functions: Seq<FunctionV>,
    pub config: GenerationConfigV,
}

impl GenerationRequest {
    pub open spec fn dv(&self) -> GenerationRequestV {
        GenerationRequestV {
            model: self.model.dv(),
            messages: Seq::new(self.messages@.len(), |i: int| self.messages@[i].dv()),
            function_call: self.function_call.dv(),
            functions: Seq::new(self.functions@.len(), |i: int| self.functions@[i].dv()),
            config: self.config.dv(),
        }
    }
}

/// A request on the wire: the fixed fields, the function list only when it
/// is not empty, then the sampling knobs.
pub open spec fn enc_request_fields(r: GenerationRequestV) -> Seq<(Seq<char>, JsonV)> {
    seq![
        ("model"@, enc_model(r.model)),
        ("messages"@, JsonV::Arr(Seq::new(r.messages.len(), |i: int| enc_message(r.messages[i])))),
        ("function_call"@, enc_function_call(r.function_call)),
    ] + (if r.functions.len() == 0 {
        Seq::empty()
    } else {
        seq![
            (
                "functions"@,
                JsonV::Arr(Seq::new(r.functions.len(), |i: int| enc_function(r.functions[i]))),
            ),
        ]
    }) + enc_config_fields(r.config)
}

pub open spec fn enc_request(r: GenerationRequestV) -> JsonV {
    JsonV::Obj(enc_request_fields(r))
}

/// Reads a whole request back: a missing function list reads as empty.
pub open spec fn dec_request(j: JsonV) -> Option<GenerationRequestV> {
    match j {
        JsonV::Obj(f) => {
            let model = match obj_get_v(f, "model"@) {
                Some(x) => dec_model(x),
                None => None,
            };
            let messages = match crate::json::get_arr_v(f, "messages"@) {
                Some(items) => dec_message_seq(items),
                None => None,
            };
            let function_call = match obj_get_v(f, "function_call"@) {
                Some(x) => dec_function_call(x),
                None => None,
            };
            let functions = match obj_get_v(f, "functions"@) {
                None => Some(Seq::<FunctionV>::empty()),
                Some(JsonV::Arr(items)) => dec_function_seq(items),
                Some(_) => None,
            };
            match (model, messages, function_call, functions, dec_config_fields(f)) {
                (Some(m), Some(ms), Some(fc), Some(fs), Some(c)) => Some(
                    GenerationRequestV {
                        model: m,
                        messages: ms,
                        function_call: fc,
                        functions: fs,
                        config: c,
                    },
                ),
                _ => None,
            }
        },
        _ => None,
    }
}

impl GenerationRequest {
    /// Encodes this request as its wire object. The token ceiling must fit
    /// the wire's signed integers.
    pub fn to_json(&self) -> (j: Json)
        requires
            self.config.max_tokens matches Some(m) ==> m <= i64::MAX,
        ensures
            j.deep_view() == enc_request(self.dv()),
    {
        broadcast use crate::json::lemma_jv_of_fields_is_map;
        broadcast use crate::json::lemma_jv_of_seq_is_map;

        let mut f: Vec<(String, Json)> = Vec::new();
        f.push(("model".to_owned(), self.model.to_json()));
        let mut msgs: Vec<Json> = Vec::new();
        let mut i: usize = 0;
        while i < self.messages.len()
            invariant
                0 <= i <= self.messages@.len(),
                msgs@.len() == i,
                forall|k: int| 0 <= k < i ==> jv_of(#[trigger] msgs@[k]) == enc_message(
                    self.messages@[k].dv(),
                ),
            decreases self.messages@.len() - i,
        {
            msgs.push(self.messages[i].to_json());
            i += 1;
        }
        proof {
            assert(jv_of_seq(msgs@) =~= Seq::new(
                self.dv().messages.len(),
                |k: int| enc_message(self.dv().messages[k]),
            ));
        }
        f.push(("messages".to_owned(), Json::Arr(msgs)));
        f.push(("function_call".to_owned(), self.function_call.to_json()));
        if self.functions.len() > 0 {
            let mut fns: Vec<Json> = Vec::new();
            let mut k: usize = 0;
            while k < self.functions.len()
                invariant
                    0 <= k <= self.functions@.len(),
                    fns@.len() == k,
                    forall|t: int| 0 <= t < k ==> jv_of(#[trigger] fns@[t]) == enc_function(
                        self.functions@[t].dv(),
                    ),
                decreases self.functions@.len() - k,
            {
                fns.push(self.functions[k].to_json());
                k += 1;
            }
            proof {
                assert(jv_of_seq(fns@) =~= Seq::new(
                    self.dv().functions.len(),
                    |t: int| enc_function(self.dv().functions[t]),
                ));
            }
            f.push(("functions".to_owned(), Json::Arr(fns)));
        }
        match &self.config.temperature {
            Some(t) => {
                f.push(("temperature".to_owned(), Json::Num(t.clone())));
            },
            None => {},
        }
        match &self.config.top_p {
            Some(t) => {
                f.push(("top_p".to_owned(), Json::Num(t.clone())));
            },
            None => {},
        }
        f.push(("stream".to_owned(), Json::Bool(self.config.stream)));
        match self.config.max_tokens {
            Some(m) => {
                f.push(("max_tokens".to_owned(), Json::Int(m as i64)));
            },
            None => {},
        }
        match &self.config.repetition_penalty {
            Some(t) => {
                f.push(("repetition_penalty".to_owned(), Json::Num(t.clone())));
            },
            None => {},
        }
        let j = Json::Obj(f);
        proof {
            assert(jv_of_fields(f@) =~= enc_request_fields(self.dv()));
        }
        j
    }
}

/// One candidate answer in a generation response.
#[derive(Debug, PartialEq)]
pub struct Choice {
    pub index: usize,
    pub message: Message,
    pub finish_reason: FinishReason,
}

/// The mathematical shape of a [`Choice`].
#[verifier::ext_equal]
pub struct ChoiceV {
    pub index: usize,
    pub message: MessageV,
    pub finish_reason: FinishReason,
}

impl Choice {
    pub open spec fn dv(&self) -> ChoiceV {
        ChoiceV {
            index: self.index,
            message: self.message.dv(),
            finish_reason: self.finish_reason,
        }
    }
}

pub open spec fn enc_choice(c: ChoiceV) -> JsonV {
    JsonV::Obj(
        seq![
            ("index"@, JsonV::Int(c.index as i64)),
            ("message"@, enc_message(c.message)),
            ("finish_reason"@, enc_finish_reason(c.finish_reason)),
        ],
    )
}

pub open spec fn dec_choice(j: JsonV) -> Option<ChoiceV> {
    match j {
        JsonV::Obj(f) => {
            let message = match obj_get_v(f, "message"@) {
                Some(x) => dec_message(x),
                None => None,
            };
            let finish = match obj_get_v(f, "finish_reason"@) {
                Some(x) => dec_finish_reason(x),
                None => None,
            };
            match (get_usize_v(f, "index"@), message, finish) {
                (Some(i), Some(m), Some(fr)) => Some(
                    ChoiceV { index: i, message: m, finish_reason: fr },
                ),
                _ => None,
            }
        },
        _ => None,
    }
}

impl Choice {
    /// Decodes a wire object into a choice.
    pub fn from_json(j: &Json) -> (r: Option<Choice>)
        ensures
            match r {
                Some(c) => dec_choice(j.deep_view()) == Some(c.dv()),
                None => dec_choice(j.deep_view()) is None,
            },
    {
        let fields = match j.as_obj() {
            Some(f) => f,
            None => {
                return None;
            },
        };
        let index = match field_usize(fields, "index") {
            Some(i) => i,
            None => {
                return None;
            },
        };
        let message = match obj_get(fields, "message") {
            Some(x) => match Message::from_json(x) {
                Some(m) => m,
                None => {
                    return None;
                },
            },
            None => {
                return None;
            },
        };
        let finish_reason = match obj_get(fields, "finish_reason") {
            Some(x) => match FinishReason::from_json(x) {
                Some(fr) => fr,
                None => {
                    return None;
                },
            },
            None => {
                return None;
            },
        };
        Some(Choice { index, message, finish_reason })
    }
}

/// A choice decodes back to itself.
pub proof fn lemma_choice_round_trip(c: ChoiceV)
    requires
        c.index <= i64::MAX,
    ensures
        dec_choice(enc_choice(c)) == Some(c),
{
    broadcast use vstd::string::group_string_axioms;

    reveal_with_fuel(crate::json::obj_get_v, 6);
    reveal_strlit("index");
    reveal_strlit("message");
    reveal_strlit("finish_reason");
    assert("index"@.len() == 5);
    assert("message"@.len() == 7);
    assert("finish_reason"@.len() == 13);
    lemma_message_round_trip(c.message);
    lemma_finish_reason_round_trip(c.finish_reason);
}

/// Reads a whole array of choices: all decode, or the array is rejected.
pub open spec fn dec_choice_seq(items: Seq<JsonV>) -> Option<Seq<ChoiceV>>
    decreases items.len(),
{
    if items.len() == 0 {
        Some(Seq::empty())
    } else {
        match (dec_choice_seq(items.drop_last()), dec_choice(items.last())) {
            (Some(s), Some(c)) => Some(s.push(c)),
            _ => None,
        }
    }
}

/// A decoded choice array has exactly one entry per wire element.
pub proof fn lemma_dec_choice_seq_some_len(items: Seq<JsonV>)
    requires
        dec_choice_seq(items) is Some,
    ensures
        dec_choice_seq(items)->Some_0.len() == items.len(),
    decreases items.len(),
{
    if items.len() > 0 {
        lemma_dec_choice_seq_some_len(items.drop_last());
    }
}

/// Once a prefix of the choice array is rejected, the whole array is.
proof fn lemma_dec_choice_seq_prefix_none(items: Seq<JsonV>, n: int)
    requires
        0 <= n <= items.len(),
        dec_choice_seq(items.take(n)) is None,
    ensures
        dec_choice_seq(items) is None,
    decreases items.len() - n,
{
    if n < items.len() {
        assert(items.take(n + 1).drop_last() =~= items.take(n));
        lemma_dec_choice_seq_prefix_none(items, n + 1);
    } else {
        assert(items.take(n) =~= items);
    }
}

/// Every choice array decodes back to itself.
pub proof fn lemma_choice_seq_round_trip(cs: Seq<ChoiceV>)
    requires
        forall|i: int| 0 <= i < cs.len() ==> (#[trigger] cs[i]).index <= i64::MAX,
    ensures
        dec_choice_seq(Seq::new(cs.len(), |i: int| enc_choice(cs[i]))) == Some(cs),
    decreases cs.len(),
{
    let enc = Seq::new(cs.len(), |i: int| enc_choice(cs[i]));
    if cs.len() > 0 {
        lemma_choice_seq_round_trip(cs.drop_last());
        lemma_choice_round_trip(cs.last());
        assert(enc.drop_last() =~= Seq::new(
            cs.drop_last().len(),
            |i: int| enc_choice(cs.drop_last()[i]),
        ));
        assert(dec_choice_seq(enc)->Some_0 =~= cs);
    } else {
        assert(enc =~= Seq::<JsonV>::empty());
    }
}

/// Decodes a wire array of choices.
pub fn choices_from_json(items: &Vec<Json>) -> (r: Option<Vec<Choice>>)
    ensures
        match r {
            Some(cs) => {
                &&& dec_choice_seq(jv_of_seq(items@)) is Some
                &&& cs@.len() == dec_choice_seq(jv_of_seq(items@))->Some_0.len()
                &&& forall|k: int| 0 <= k < cs@.len() ==> (#[trigger] cs@[k]).dv()
                    == dec_choice_seq(jv_of_seq(items@))->Some_0[k]
            },
            None => dec_choice_seq(jv_of_seq(items@)) is None,
        },
{
    let mut out: Vec<Choice> = Vec::new();
    let mut i: usize = 0;
    while i < items.len()
        invariant
            0 <= i <= items@.len(),
            out@.len() == i,
            dec_choice_seq(jv_of_seq(items@).take(i as int)) is Some,
            forall|k: int| 0 <= k < i ==> (#[trigger] out@[k]).dv() == dec_choice_seq(
                jv_of_seq(items@).take(i as int),
            )->Some_0[k],
        decreases items@.len() - i,
    {
        let ghost pre = jv_of_seq(items@).take(i as int);
        let ghost cur = jv_of_seq(items@).take(i + 1);
        proof {
            crate::json::lemma_jv_of_seq_len(items@);
            crate::json::lemma_jv_of_seq_index(items@, i as int);
            assert(cur.drop_last() =~= pre);
            assert(cur.last() == jv_of(items@[i as int]));
            lemma_dec_choice_seq_some_len(pre);
        }
        match Choice::from_json(&items[i]) {
            Some(c) => {
                out.push(c);
            },
            None => {
                proof {
                    lemma_dec_choice_seq_prefix_none(jv_of_seq(items@), i + 1);
                }
                return None;
            },
        }
        i += 1;
    }
    proof {
        crate::json::lemma_jv_of_seq_len(items@);
        assert(jv_of_seq(items@).take(items@.len() as int) =~= jv_of_seq(items@));
        lemma_dec_choice_seq_some_len(jv_of_seq(items@));
    }
    Some(out)
}

/// One whole generation response.
#[derive(Debug, PartialEq)]
pub struct GenerationResponse {
    pub choices: Vec<Choice>,
    /// The creation instant, in epoch seconds.
    pub created: i64,
    pub model: Model,
    pub usage: Usage,
}

/// The mathematical shape of a [`GenerationResponse`].
#[verifier::ext_equal]
pub struct GenerationResponseV {
    pub choices: Seq<ChoiceV>,
    pub created: i64,
    pub model: ModelV,
    pub usage: Usage,
}

impl GenerationResponse {
    pub open spec fn dv(&self) -> GenerationResponseV {
        GenerationResponseV {
            choices: Seq::new(self.choices@.len(), |i: int| self.choices@[i].dv()),
            created: self.created,
            model: self.model.dv(),
            usage: self.usage,
        }
    }
}

pub open spec fn enc_response(r: GenerationResponseV) -> JsonV {
    JsonV::Obj(
        seq![
            ("choices"@, JsonV::Arr(Seq::new(r.choices.len(), |i: int| enc_choice(r.choices[i])))),
            ("created"@, JsonV::Int(r.created)),
            ("model"@, enc_model(r.model)),
            ("usage"@, enc_usage(r.usage)),
        ],
    )
}

pub open spec fn dec_response(j: JsonV) -> Option<GenerationResponseV> {
    match j {
        JsonV::Obj(f) => {
            let choices = match crate::json::get_arr_v(f, "choices"@) {
                Some(items) => dec_choice_seq(items),
                None => None,
            };
            let model = match obj_get_v(f, "model"@) {
                Some(x) => dec_model(x),
                None => None,
            };
            let usage = match obj_get_v(f, "usage"@) {
                Some(x) => dec_usage(x),
                None => None,
            };
            match (choices, get_i64_v(f, "created"@), model, usage) {
                (Some(cs), Some(cr), Some(m), Some(u)) => Some(
                    GenerationResponseV { choices: cs, created: cr, model: m, usage: u },
                ),
                _ => None,
            }
        },
        _ => None,
    }
}

impl GenerationResponse {
    /// Decodes a wire object into a response.
    pub fn from_json(j: &Json) -> (r: Option<GenerationResponse>)
        ensures
            match r {
                Some(resp) => dec_response(j.deep_view()) == Some(resp.dv()),
                None => dec_response(j.deep_view()) is None,
            },
    {
        let fields = match j.as_obj() {
            Some(f) => f,
            None => {
                return None;
            },
        };
        let choices = match crate::json::field_arr(fields, "choices") {
            Some(items) => match choices_from_json(items) {
                Some(cs) => cs,
                None => {
                    return None;
                },
            },
            None => {
                return None;
            },
        };
        let created = match field_i64(fields, "created") {
            Some(c) => c,
            None => {
                return None;
            },
        };
        let model = match obj_get(fields, "model") {
            Some(x) => match Model::from_json(x) {
                Some(m) => m,
                None => {
                    return None;
                },
            },
            None => {
                return None;
            },
        };
        let usage = match obj_get(fields, "usage") {
            Some(x) => match Usage::from_json(x) {
                Some(u) => u,
                None => {
                    return None;
                },
            },
            None => {
                return None;
            },
        };
        let resp = GenerationResponse { choices, created, model, usage };
        proof {
            assert(resp.dv().choices =~= dec_response(j.deep_view())->Some_0.choices);
        }
        Some(resp)
    }
}

impl GenerationResponse {
    /// The whole decode step over one success body: the bytes must parse as
    /// JSON and read as this shape; anything else fails with `ParseResponse`
    /// carrying the bytes.
    pub fn from_body(bytes: &[u8]) -> (r: Result<GenerationResponse, crate::executor::RequestError>)
        ensures
            match r {
                Ok(resp) => crate::json::json_of_bytes(bytes@) matches Some(j) && dec_response(j)
                    == Some(resp.dv()),
                Err(e) => {
                    &&& (crate::json::json_of_bytes(bytes@) is None || dec_response(
                        crate::json::json_of_bytes(bytes@)->Some_0,
                    ) is None)
                    &&& e matches crate::executor::RequestError::ParseResponse { raw } && raw@
                        == bytes@
                },
            },
    {
        match crate::json::parse_json_bytes(bytes) {
            Some(j) => match GenerationResponse::from_json(&j) {
                Some(resp) => Ok(resp),
                None => Err(
                    crate::executor::RequestError::ParseResponse {
                        raw: crate::json::copy_bytes(bytes),
                    },
                ),
            },
            None => Err(
                crate::executor::RequestError::ParseResponse { raw: crate::json::copy_bytes(bytes) },
            ),
        }
    }
}

/// A response decodes back to itself, under the same wire limits as its
/// parts.
pub proof fn lemma_response_round_trip(r: GenerationResponseV)
    requires
        !custom_model_collides(r.model),
        forall|i: int| 0 <= i < r.choices.len() ==> (#[trigger] r.choices[i]).index <= i64::MAX,
    ensures
        dec_response(enc_response(r)) == Some(r),
{
    broadcast use vstd::string::group_string_axioms;

    reveal_with_fuel(crate::json::obj_get_v, 6);
    reveal_strlit("choices");
    reveal_strlit("created");
    reveal_strlit("model");
    reveal_strlit("usage");
    assert("choices"@.len() == 7);
    assert("created"@.len() == 7);
    assert("model"@.len() == 5);
    assert("usage"@.len() == 5);
    assert("choices"@[1] == 'h');
    assert("created"@[1] == 'r');
    assert("model"@[0] == 'm');
    assert("usage"@[0] == 'u');
    lemma_choice_seq_round_trip(r.choices);
    lemma_model_round_trip(r.model);
    lemma_usage_round_trip(r.usage);
}

/// The text a response carries: the first choice's spoken content, empty
/// when there is no choice or the first choice is a function result.
pub open spec fn response_text(r: GenerationResponseV) -> Seq<char> {
    if r.choices.len() == 0 {
        Seq::empty()
    } else {
        match r.choices[0].message {
            MessageV::System { content } => content,
            MessageV::User { content } => content,
            MessageV::Assistant { content, .. } => content,
            MessageV::Function { .. } => Seq::empty(),
        }
    }
}

impl GenerationResponse {
    /// The first choice's spoken content, empty when there is none.
    pub fn text(&self) -> (r: String)
        ensures
            r@ == response_text(self.dv()),
    {
        if self.choices.len() == 0 {
            return String::new();
        }
        match &self.choices[0].message {
            Message::System { content } => content.clone(),
            Message::User { content } => content.clone(),
            Message::Assistant { content, .. } => content.clone(),
            Message::Function { .. } => String::new(),
        }
    }
}

/// One streamed piece of a message: the opening header or a later delta.
#[derive(Debug, PartialEq)]
pub enum MessageStreamPart {
    Header(Message),
    Delta { content: String },
}

/// The mathematical shape of a [`MessageStreamPart`].
#[verifier::ext_equal]
pub enum MessageStreamPartV {
    Header(MessageV),
    Delta { content: Seq<char> },
}

impl MessageStreamPart {
    pub open spec fn dv(&self) -> MessageStreamPartV {
        match self {
            MessageStreamPart::Header(m) => MessageStreamPartV::Header(m.dv()),
            MessageStreamPart::Delta { content } => MessageStreamPartV::Delta {
                content: content@,
            },
        }
    }
}

pub open spec fn enc_msp(p: MessageStreamPartV) -> JsonV {
    match p {
        MessageStreamPartV::Header(m) => enc_message(m),
        MessageStreamPartV::Delta { content } => JsonV::Obj(
            seq![("content"@, JsonV::Str(content))],
        ),
    }
}

/// Reads a streamed piece: a whole message wins, a bare content is a delta.
pub open spec fn dec_msp(j: JsonV) -> Option<MessageStreamPartV> {
    match dec_message(j) {
        Some(m) => Some(MessageStreamPartV::Header(m)),
        None => match j {
            JsonV::Obj(f) => match get_str_v(f, "content"@) {
                Some(c) => Some(MessageStreamPartV::Delta { content: c }),
                None => None,
            },
            _ => None,
        },
    }
}

impl MessageStreamPart {
    /// Decodes a wire object into a streamed piece.
    pub fn from_json(j: &Json) -> (r: Option<MessageStreamPart>)
        ensures
            match r {
                Some(p) => dec_msp(j.deep_view()) == Some(p.dv()),
                None => dec_msp(j.deep_view()) is None,
            },
    {
        match Message::from_json(j) {
            Some(m) => Some(MessageStreamPart::Header(m)),
            None => match j.as_obj() {
                Some(fields) => match field_str(fields, "content") {
                    Some(c) => Some(MessageStreamPart::Delta { content: c }),
                    None => None,
                },
                None => None,
            },
        }
    }
}

/// A streamed piece decodes back to itself.
pub proof fn lemma_msp_round_trip(p: MessageStreamPartV)
    ensures
        dec_msp(enc_msp(p)) == Some(p),
{
    broadcast use vstd::string::group_string_axioms;

    reveal_with_fuel(crate::json::obj_get_v, 4);
    reveal_strlit("role");
    reveal_strlit("content");
    assert("role"@.len() == 4);
    assert("content"@.len() == 7);
    match p {
        MessageStreamPartV::Header(m) => {
            lemma_message_round_trip(m);
        },
        MessageStreamPartV::Delta { content } => {},
    }
}

/// One streamed choice: which candidate it belongs to and its next piece.
#[derive(Debug, PartialEq)]
pub struct ChoiceStreamPart {
    pub delta: MessageStreamPart,
    pub index: usize,
}

/// The mathematical shape of a [`ChoiceStreamPart`].
#[verifier::ext_equal]
pub struct ChoiceStreamPartV {
    pub delta: MessageStreamPartV,
    pub index: usize,
}

impl ChoiceStreamPart {
    pub open spec fn dv(&self) -> ChoiceStreamPartV {
        ChoiceStreamPartV { delta: self.delta.dv(), index: self.index }
    }
}

pub open spec fn enc_csp(c: ChoiceStreamPartV) -> JsonV {
    JsonV::Obj(seq![("delta"@, enc_msp(c.delta)), ("index"@, JsonV::Int(c.index as i64))])
}

pub open spec fn dec_csp(j: JsonV) -> Option<ChoiceStreamPartV> {
    match j {
        JsonV::Obj(f) => {
            let delta = match obj_get_v(f, "delta"@) {
                Some(x) => dec_msp(x),
                None => None,
            };
            match (delta, get_usize_v(f, "index"@)) {
                (Some(d), Some(i)) => Some(ChoiceStreamPartV { delta: d, index: i }),
                _ => None,
            }
        },
        _ => None,
    }
}

impl ChoiceStreamPart {
    /// Decodes a wire object into a streamed choice.
    pub fn from_json(j: &Json) -> (r: Option<ChoiceStreamPart>)
        ensures
            match r {
                Some(c) => dec_csp(j.deep_view()) == Some(c.dv()),
                None => dec_csp(j.deep_view()) is None,
            },
    {
        let fields = match j.as_obj() {
            Some(f) => f,
            None => {
                return None;
            },
        };
        let delta = match obj_get(fields, "delta") {
            Some(x) => match MessageStreamPart::from_json(x) {
                Some(d) => d,
                None => {
                    return None;
                },
            },
            None => {
                return None;
            },
        };
        let index = match field_usize(fields, "index") {
            Some(i) => i,
            None => {
                return None;
            },
        };
        Some(ChoiceStreamPart { delta, index })
    }
}

/// A streamed choice decodes back to itself.
pub proof fn lemma_csp_round_trip(c: ChoiceStreamPartV)
    requires
        c.index <= i64::MAX,
    ensures
        dec_csp(enc_csp(c)) == Some(c),
{
    broadcast use vstd::string::group_string_axioms;

    reveal_with_fuel(crate::json::obj_get_v, 4);
    reveal_strlit("delta");
    reveal_strlit("index");
    assert("delta"@.len() == 5);
    assert("index"@.len() == 5);
    assert("delta"@[0] == 'd');
    assert("index"@[0] == 'i');
    lemma_msp_round_trip(c.delta);
}

/// Reads a whole array of streamed choices.
pub open spec fn dec_csp_seq(items: Seq<JsonV>) -> Option<Seq<ChoiceStreamPartV>>
    decreases items.len(),
{
    if items.len() == 0 {
        Some(Seq::empty())
    } else {
        match (dec_csp_seq(items.drop_last()), dec_csp(items.last())) {
            (Some(s), Some(c)) => Some(s.push(c)),
            _ => None,
        }
    }
}

/// A decoded array has exactly one entry per wire element.
pub proof fn lemma_dec_csp_seq_some_len(items: Seq<JsonV>)
    requires
        dec_csp_seq(items) is Some,
    ensures
        dec_csp_seq(items)->Some_0.len() == items.len(),
    decreases items.len(),
{
    if items.len() > 0 {
        lemma_dec_csp_seq_some_len(items.drop_last());
    }
}

/// Once a prefix of the array is rejected, the whole array is.
proof fn lemma_dec_csp_seq_prefix_none(items: Seq<JsonV>, n: int)
    requires
        0 <= n <= items.len(),
        dec_csp_seq(items.take(n)) is None,
    ensures
        dec_csp_seq(items) is None,
    decreases items.len() - n,
{
    if n < items.len() {
        assert(items.take(n + 1).drop_last() =~= items.take(n));
        lemma_dec_csp_seq_prefix_none(items, n + 1);
    } else {
        assert(items.take(n) =~= items);
    }
}

/// Every streamed-choice array decodes back to itself.
pub proof fn lemma_csp_seq_round_trip(cs: Seq<ChoiceStreamPartV>)
    requires
        forall|i: int| 0 <= i < cs.len() ==> (#[trigger] cs[i]).index <= i64::MAX,
    ensures
        dec_csp_seq(Seq::new(cs.len(), |i: int| enc_csp(cs[i]))) == Some(cs),
    decreases cs.len(),
{
    let enc = Seq::new(cs.len(), |i: int| enc_csp(cs[i]));
    if cs.len() > 0 {
        lemma_csp_seq_round_trip(cs.drop_last());
        lemma_csp_round_trip(cs.last());
        assert(enc.drop_last() =~= Seq::new(
            cs.drop_last().len(),
            |i: int| enc_csp(cs.drop_last()[i]),
        ));
        assert(dec_csp_seq(enc)->Some_0 =~= cs);
    } else {
        assert(enc =~= Seq::<JsonV>::empty());
    }
}

/// Decodes a wire array of streamed choices.
pub fn csps_from_json(items: &Vec<Json>) -> (r: Option<Vec<ChoiceStreamPart>>)
    ensures
        match r {
            Some(cs) => {
                &&& dec_csp_seq(jv_of_seq(items@)) is Some
                &&& cs@.len() == dec_csp_seq(jv_of_seq(items@))->Some_0.len()
                &&& forall|k: int| 0 <= k < cs@.len() ==> (#[trigger] cs@[k]).dv() == dec_csp_seq(
                    jv_of_seq(items@),
                )->Some_0[k]
            },
            None => dec_csp_seq(jv_of_seq(items@)) is None,
        },
{
    let mut out: Vec<ChoiceStreamPart> = Vec::new();
    let mut i: usize = 0;
    while i < items.len()
        invariant
            0 <= i <= items@.len(),
            out@.len() == i,
            dec_csp_seq(jv_of_seq(items@).take(i as int)) is Some,
            forall|k: int| 0 <= k < i ==> (#[trigger] out@[k]).dv() == dec_csp_seq(
                jv_of_seq(items@).take(i as int),
            )->Some_0[k],
        decreases items@.len() - i,
    {
        let ghost pre = jv_of_seq(items@).take(i as int);
        let ghost cur = jv_of_seq(items@).take(i + 1);
        proof {
            crate::json::lemma_jv_of_seq_len(items@);
            crate::json::lemma_jv_of_seq_index(items@, i as int);
            assert(cur.drop_last() =~= pre);
            assert(cur.last() == jv_of(items@[i as int]));
            lemma_dec_csp_seq_some_len(pre);
        }
        match ChoiceStreamPart::from_json(&items[i]) {
            Some(c) => {
                out.push(c);
            },
            None => {
                proof {
                    lemma_dec_csp_seq_prefix_none(jv_of_seq(items@), i + 1);
                }
                return None;
            },
        }
        i += 1;
    }
    proof {
        crate::json::lemma_jv_of_seq_len(items@);
        assert(jv_of_seq(items@).take(items@.len() as int) =~= jv_of_seq(items@));
        lemma_dec_csp_seq_some_len(jv_of_seq(items@));
    }
    Some(out)
}

/// One decoded fragment of a streamed generation response.
#[derive(Debug, PartialEq)]
pub struct GenerationResponseStream {
    pub model: Model,
    /// The creation instant, in epoch seconds.
    pub created: i64,
    pub choices: Vec<ChoiceStreamPart>,
}

/// The mathematical shape of a [`GenerationResponseStream`].
#[verifier::ext_equal]
pub struct GenerationResponseStreamV {
    pub model: ModelV,
    pub created: i64,
    pub choices: Seq<ChoiceStreamPartV>,
}

impl GenerationResponseStream {
    pub open spec fn dv(&self) -> GenerationResponseStreamV {
        GenerationResponseStreamV {
            model: self.model.dv(),
            created: self.created,
            choices: Seq::new(self.choices@.len(), |i: int| self.choices@[i].dv()),
        }
    }
}

pub open spec fn enc_fragment(r: GenerationResponseStreamV) -> JsonV {
    JsonV::Obj(
        seq![
            ("model"@, enc_model(r.model)),
            ("created"@, JsonV::Int(r.created)),
            ("choices"@, JsonV::Arr(Seq::new(r.choices.len(), |i: int| enc_csp(r.choices[i])))),
        ],
    )
}

/// Reads one streamed fragment off the wire.
pub open spec fn dec_fragment(j: JsonV) -> Option<GenerationResponseStreamV> {
    match j {
        JsonV::Obj(f) => {
            let model = match obj_get_v(f, "model"@) {
                Some(x) => dec_model(x),
                None => None,
            };
            let choices = match crate::json::get_arr_v(f, "choices"@) {
                Some(items) => dec_csp_seq(items),
                None => None,
            };
            match (model, get_i64_v(f, "created"@), choices) {
                (Some(m), Some(cr), Some(cs)) => Some(
                    GenerationResponseStreamV { model: m, created: cr, choices: cs },
                ),
                _ => None,
            }
        },
        _ => None,
    }
}

impl GenerationResponseStream {
    /// Decodes a wire object into a streamed fragment.
    pub fn from_json(j: &Json) -> (r: Option<GenerationResponseStream>)
        ensures
            match r {
                Some(fr) => dec_fragment(j.deep_view()) == Some(fr.dv()),
                None => dec_fragment(j.deep_view()) is None,
            },
    {
        let fields = match j.as_obj() {
            Some(f) => f,
            None => {
                return None;
            },
        };
        let model = match obj_get(fields, "model") {
            Some(x) => match Model::from_json(x) {
                Some(m) => m,
                None => {
                    return None;
                },
            },
            None => {
                return None;
            },
        };
        let created = match field_i64(fields, "created") {
            Some(c) => c,
            None => {
                return None;
            },
        };
        let choices = match crate::json::field_arr(fields, "choices") {
            Some(items) => match csps_from_json(items) {
                Some(cs) => cs,
                None => {
                    return None;
                },
            },
            None => {
                return None;
            },
        };
        let fr = GenerationResponseStream { model, created, choices };
        proof {
            assert(fr.dv().choices =~= dec_fragment(j.deep_view())->Some_0.choices);
        }
        Some(fr)
    }
}

/// A streamed fragment decodes back to itself, under the same wire limits as
/// its parts.
pub proof fn lemma_fragment_round_trip(r: GenerationResponseStreamV)
    requires
        !custom_model_collides(r.model),
        forall|i: int| 0 <= i < r.choices.len() ==> (#[trigger] r.choices[i]).index <= i64::MAX,
    ensures
        dec_fragment(enc_fragment(r)) == Some(r),
{
    broadcast use vstd::string::group_string_axioms;

    reveal_with_fuel(crate::json::obj_get_v, 6);
    reveal_strlit("model");
    reveal_strlit("created");
    reveal_strlit("choices");
    assert("model"@.len() == 5);
    assert("created"@.len() == 7);
    assert("choices"@.len() == 7);
    assert("created"@[1] == 'r');
    assert("choices"@[1] == 'h');
    lemma_model_round_trip(r.model);
    lemma_csp_seq_round_trip(r.choices);
}

/// Assembles a generation request incrementally and applies the defaults at
/// the end, exactly once.
#[derive(Debug, PartialEq)]
pub struct GenerationBuilder {
    pub model: Model,
    pub messages: Option<Vec<Message>>,
    pub config: GenerationConfig,
    pub functions: Vec<Function>,
    pub function_call: FunctionCall,
}

impl GenerationBuilder {
    /// A builder with every knob at its default.
    pub fn new() -> (r: GenerationBuilder)
        ensures
            r.model == Model::GigaChat2Max,
            r.messages is None,
            r.config.temperature is None,
            r.config.top_p is None,
            r.config.stream == false,
            r.config.max_tokens is None,
            r.config.repetition_penalty is None,
            r.functions@.len() == 0,
            r.function_call == FunctionCall::NoCall,
    {
        GenerationBuilder {
            model: Model::default(),
            messages: None,
            config: GenerationConfig::default(),
            functions: Vec::new(),
            function_call: FunctionCall::default(),
        }
    }

    /// Picks the model.
    pub fn with_model(self, model: Model) -> (r: Self)
        ensures
            r == (GenerationBuilder { model, ..self }),
    {
        GenerationBuilder { model, ..self }
    }

    /// Sets the conversation.
    pub fn with_messages(self, messages: Vec<Message>) -> (r: Self)
        ensures
            r == (GenerationBuilder { messages: Some(messages), ..self }),
    {
        GenerationBuilder { messages: Some(messages), ..self }
    }

    /// Sets the sampling temperature, as its decimal text.
    pub fn with_temperature(self, temperature: String) -> (r: Self)
        ensures
            r.config.temperature matches Some(t) && t@ == temperature@,
            r.model == self.model && r.messages == self.messages && r.functions == self.functions
                && r.function_call == self.function_call,
            r.config.top_p == self.config.top_p && r.config.stream == self.config.stream
                && r.config.max_tokens == self.config.max_tokens && r.config.repetition_penalty
                == self.config.repetition_penalty,
    {
        let mut b = self;
        b.config.temperature = Some(temperature);
        b
    }

    /// Sets the nucleus-sampling bound, as its decimal text.
    pub fn with_top_p(self, top_p: String) -> (r: Self)
        ensures
            r.config.top_p matches Some(t) && t@ == top_p@,
            r.model == self.model && r.messages == self.messages && r.functions == self.functions
                && r.function_call == self.function_call,
            r.config.temperature == self.config.temperature && r.config.stream
                == self.config.stream && r.config.max_tokens == self.config.max_tokens
                && r.config.repetition_penalty == self.config.repetition_penalty,
    {
        let mut b = self;
        b.config.top_p = Some(top_p);
        b
    }

    /// Sets the token ceiling.
    pub fn with_max_tokens(self, max_tokens: usize) -> (r: Self)
        ensures
            r.config.max_tokens == Some(max_tokens),
            r.model == self.model && r.messages == self.messages && r.functions == self.functions
                && r.function_call == self.function_call,
            r.config.temperature == self.config.temperature && r.config.stream
                == self.config.stream && r.config.top_p == self.config.top_p
                && r.config.repetition_penalty == self.config.repetition_penalty,
    {
        let mut b = self;
        b.config.max_tokens = Some(max_tokens);
        b
    }

    /// Sets the repetition penalty, as its decimal text.
    pub fn with_repetition_penalty(self, repetition_penalty: String) -> (r: Self)
        ensures
            r.config.repetition_penalty matches Some(t) && t@ == repetition_penalty@,
            r.model == self.model && r.messages == self.messages && r.functions == self.functions
                && r.function_call == self.function_call,
            r.config.temperature == self.config.temperature && r.config.stream
                == self.config.stream && r.config.top_p == self.config.top_p
                && r.config.max_tokens == self.config.max_tokens,
    {
        let mut b = self;
        b.config.repetition_penalty = Some(repetition_penalty);
        b
    }

    /// Offers a user-defined function.
    pub fn with_user_function(self, user_function: UserFunction) -> (r: Self)
        ensures
            r.functions@ == self.functions@.push(Function::User(user_function)),
            r.model == self.model && r.messages == self.messages && r.config == self.config
                && r.function_call == self.function_call,
    {
        let mut b = self;
        b.functions.push(Function::User(user_function));
        b
    }

    /// Offers a built-in function.
    pub fn with_builtin_function(self, function: FunctionName) -> (r: Self)
        ensures
            r.functions@ == self.functions@.push(Function::BuiltIn(function)),
            r.model == self.model && r.messages == self.messages && r.config == self.config
                && r.function_call == self.function_call,
    {
        let mut b = self;
        b.functions.push(Function::BuiltIn(function));
        b
    }

    /// Sets the call policy.
    pub fn with_function_call(self, function_call: FunctionCall) -> (r: Self)
        ensures
            r == (GenerationBuilder { function_call, ..self }),
    {
        GenerationBuilder { function_call, ..self }
    }

    /// Finalizes the request: unset messages become the empty conversation.
    pub fn build(self) -> (r: GenerationRequest)
        ensures
            r.model == self.model,
            match self.messages {
                Some(ms) => r.messages == ms,
                None => r.messages@.len() == 0,
            },
            r.config == self.config,
            r.function_call == self.function_call,
            r.functions == self.functions,
    {
        GenerationRequest {
            model: self.model,
            messages: match self.messages {
                Some(ms) => ms,
                None => Vec::new(),
            },
            function_call: self.function_call,
            functions: self.functions,
            config: self.config,
        }
    }
}

/// A request decodes back to itself: the one custom model name that shadows
/// a catalogue identifier is excepted, and the token ceiling must fit the
/// wire's signed integers.
#[verifier::rlimit(100)]
pub proof fn lemma_request_round_trip(r: GenerationRequestV)
    requires
        !custom_model_collides(r.model),
        r.config.max_tokens matches Some(m) ==> m <= i64::MAX,
    ensures
        dec_request(enc_request(r)) == Some(r),
{
    broadcast use vstd::string::group_string_axioms;

    reveal_with_fuel(crate::json::obj_get_v, 4);
    reveal_strlit("model");
    reveal_strlit("messages");
    reveal_strlit("function_call");
    reveal_strlit("functions");
    reveal_strlit("temperature");
    reveal_strlit("top_p");
    reveal_strlit("stream");
    reveal_strlit("max_tokens");
    reveal_strlit("repetition_penalty");
    assert("model"@.len() == 5);
    assert("messages"@.len() == 8);
    assert("function_call"@.len() == 13);
    assert("functions"@.len() == 9);
    assert("temperature"@.len() == 11);
    assert("top_p"@.len() == 5);
    assert("stream"@.len() == 6);
    assert("max_tokens"@.len() == 10);
    assert("repetition_penalty"@.len() == 18);
    assert("model"@[0] == 'm');
    assert("top_p"@[0] == 't');
    assert("max_tokens"@[0] == 'm');
    assert("model"@[1] == 'o');
    assert("max_tokens"@[1] == 'a');
    lemma_model_round_trip(r.model);
    lemma_message_seq_round_trip(r.messages);
    lemma_function_call_round_trip(r.function_call);
    lemma_function_seq_round_trip(r.functions);
    let base = seq![
        ("model"@, enc_model(r.model)),
        ("messages"@, JsonV::Arr(Seq::new(r.messages.len(), |i: int| enc_message(r.messages[i])))),
        ("function_call"@, enc_function_call(r.function_call)),
    ];
    let funcs: Seq<(Seq<char>, JsonV)> = if r.functions.len() == 0 {
        Seq::empty()
    } else {
        seq![
            (
                "functions"@,
                JsonV::Arr(Seq::new(r.functions.len(), |i: int| enc_function(r.functions[i]))),
            ),
        ]
    };
    let cfg = enc_config_fields(r.config);
    let all = enc_request_fields(r);
    assert(all =~= base + (funcs + cfg));
    let keys = seq![
        "model"@,
        "messages"@,
        "function_call"@,
        "functions"@,
        "temperature"@,
        "top_p"@,
        "stream"@,
        "max_tokens"@,
        "repetition_penalty"@,
    ];
    let t_part: Seq<(Seq<char>, JsonV)> = match r.config.temperature {
        Some(t) => seq![("temperature"@, JsonV::Num(t))],
        None => Seq::empty(),
    };
    let tp_part: Seq<(Seq<char>, JsonV)> = match r.config.top_p {
        Some(t) => seq![("top_p"@, JsonV::Num(t))],
        None => Seq::empty(),
    };
    let st_part: Seq<(Seq<char>, JsonV)> = seq![("stream"@, JsonV::Bool(r.config.stream))];
    let mt_part: Seq<(Seq<char>, JsonV)> = match r.config.max_tokens {
        Some(m) => seq![("max_tokens"@, JsonV::Int(m as i64))],
        None => Seq::empty(),
    };
    let rp_part: Seq<(Seq<char>, JsonV)> = match r.config.repetition_penalty {
        Some(t) => seq![("repetition_penalty"@, JsonV::Num(t))],
        None => Seq::empty(),
    };
    let rest1 = tp_part + (st_part + (mt_part + rp_part));
    let rest2 = st_part + (mt_part + rp_part);
    let rest3 = mt_part + rp_part;
    assert(cfg =~= t_part + rest1);
    assert forall|ki: int| 0 <= ki < keys.len() implies #[trigger] obj_get_v(all, keys[ki])
        == (match obj_get_v(base, keys[ki]) {
        Some(v) => Some(v),
        None => match obj_get_v(funcs, keys[ki]) {
            Some(v) => Some(v),
            None => match obj_get_v(t_part, keys[ki]) {
                Some(v) => Some(v),
                None => match obj_get_v(tp_part, keys[ki]) {
                    Some(v) => Some(v),
                    None => match obj_get_v(st_part, keys[ki]) {
                        Some(v) => Some(v),
                        None => match obj_get_v(mt_part, keys[ki]) {
                            Some(v) => Some(v),
                            None => obj_get_v(rp_part, keys[ki]),
                        },
                    },
                },
            },
        },
    }) by {
        let k = keys[ki];
        crate::json::lemma_obj_get_concat(base, funcs + cfg, k);
        crate::json::lemma_obj_get_concat(funcs, cfg, k);
        crate::json::lemma_obj_get_concat(t_part, rest1, k);
        crate::json::lemma_obj_get_concat(tp_part, rest2, k);
        crate::json::lemma_obj_get_concat(st_part, rest3, k);
        crate::json::lemma_obj_get_concat(mt_part, rp_part, k);
        assert(obj_get_v(all, k) == obj_get_v(base + (funcs + cfg), k));
        assert(obj_get_v(cfg, k) == obj_get_v(t_part + rest1, k));
    }
    assert(dec_request(enc_request(r))->Some_0.messages =~= r.messages);
    assert(dec_request(enc_request(r))->Some_0.functions =~= r.functions);
}

} // verus!
