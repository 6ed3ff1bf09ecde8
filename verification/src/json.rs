use vstd::prelude::*;

verus! {

/// The JSON tree that the library's codecs produce and consume.
///
/// A number that fits in `i64` is held as `Int`; any other number keeps its
/// decimal text in `Num`, and the library carries that text through without
/// interpreting it (the service's embedding vectors and sampling parameters
/// are such numbers).
#[derive(Debug, PartialEq)]
pub enum Json {
    Null,
    Bool(bool),
    Int(i64),
    Num(String),
    Str(String),
    Arr(Vec<Json>),
    Obj(Vec<(String, Json)>),
}

/// The mathematical shape of a [`Json`] tree.
#[verifier::ext_equal]
pub enum JsonV {
    Null,
    Bool(bool),
    Int(i64),
    Num(Seq<char>),
    Str(Seq<char>),
    Arr(Seq<JsonV>),
    Obj(Seq<(Seq<char>, JsonV)>),
}

/// The mathematical shape of a [`Json`] tree.
pub open spec fn jv_of(j: Json) -> JsonV
    decreases j, 1int,
{
    match j {
        Json::Null => JsonV::Null,
        Json::Bool(b) => JsonV::Bool(b),
        Json::Int(i) => JsonV::Int(i),
        Json::Num(s) => JsonV::Num(s@),
        Json::Str(s) => JsonV::Str(s@),
        Json::Arr(v) => JsonV::Arr(jv_of_seq(v@)),
        Json::Obj(m) => JsonV::Obj(jv_of_fields(m@)),
    }
}

/// The shapes of a sequence of trees, element by element.
pub open spec fn jv_of_seq(s: Seq<Json>) -> Seq<JsonV>
    decreases s, 0int,
{
    if s.len() == 0 {
        Seq::empty()
    } else {
        jv_of_seq(s.subrange(0, s.len() - 1)).push(jv_of(s[s.len() - 1]))
    }
}

/// The shapes of an object's fields, pair by pair.
pub open spec fn jv_of_fields(s: Seq<(String, Json)>) -> Seq<(Seq<char>, JsonV)>
    decreases s, 0int,
{
    if s.len() == 0 {
        Seq::empty()
    } else {
        jv_of_fields(s.subrange(0, s.len() - 1)).push(
            (s[s.len() - 1].0@, jv_of(s[s.len() - 1].1)),
        )
    }
}

pub broadcast proof fn lemma_jv_of_seq_index(s: Seq<Json>, i: int)
    requires
        0 <= i < s.len(),
    ensures
        jv_of_seq(s).len() == s.len(),
        #[trigger] jv_of_seq(s)[i] == jv_of(s[i]),
    decreases s.len(),
{
    lemma_jv_of_seq_len(s);
    lemma_jv_of_seq_len(s.subrange(0, s.len() - 1));
    if i < s.len() - 1 {
        lemma_jv_of_seq_index(s.subrange(0, s.len() - 1), i);
    }
}

pub proof fn lemma_jv_of_seq_len(s: Seq<Json>)
    ensures
        jv_of_seq(s).len() == s.len(),
    decreases s.len(),
{
    if s.len() > 0 {
        lemma_jv_of_seq_len(s.subrange(0, s.len() - 1));
    }
}

pub broadcast proof fn lemma_jv_of_fields_index(s: Seq<(String, Json)>, i: int)
    requires
        0 <= i < s.len(),
    ensures
        jv_of_fields(s).len() == s.len(),
        #[trigger] jv_of_fields(s)[i] == (s[i].0@, jv_of(s[i].1)),
    decreases s.len(),
{
    lemma_jv_of_fields_len(s);
    lemma_jv_of_fields_len(s.subrange(0, s.len() - 1));
    if i < s.len() - 1 {
        lemma_jv_of_fields_index(s.subrange(0, s.len() - 1), i);
    }
}

pub proof fn lemma_jv_of_fields_len(s: Seq<(String, Json)>)
    ensures
        jv_of_fields(s).len() == s.len(),
    decreases s.len(),
{
    if s.len() > 0 {
        lemma_jv_of_fields_len(s.subrange(0, s.len() - 1));
    }
}

/// Two element sequences with the same shapes have the same shape sequence.
pub proof fn lemma_jv_of_seq_pointwise(a: Seq<Json>, b: Seq<Json>)
    requires
        a.len() == b.len(),
        forall|k: int| 0 <= k < a.len() ==> jv_of(#[trigger] a[k]) == jv_of(b[k]),
    ensures
        jv_of_seq(a) == jv_of_seq(b),
    decreases a.len(),
{
    if a.len() > 0 {
        lemma_jv_of_seq_pointwise(a.subrange(0, a.len() - 1), b.subrange(0, b.len() - 1));
    }
}

/// Two field lists with the same keys and shapes have the same shape list.
pub proof fn lemma_jv_of_fields_pointwise(a: Seq<(String, Json)>, b: Seq<(String, Json)>)
    requires
        a.len() == b.len(),
        forall|k: int| 0 <= k < a.len() ==> (#[trigger] a[k]).0@ == b[k].0@ && jv_of(a[k].1)
            == jv_of(b[k].1),
    ensures
        jv_of_fields(a) == jv_of_fields(b),
    decreases a.len(),
{
    if a.len() > 0 {
        lemma_jv_of_fields_pointwise(a.subrange(0, a.len() - 1), b.subrange(0, b.len() - 1));
    }
}

/// The shape sequence is the pointwise map of `jv_of`.
pub broadcast proof fn lemma_jv_of_seq_is_map(s: Seq<Json>)
    ensures
        #[trigger] jv_of_seq(s) == Seq::new(s.len(), |i: int| jv_of(s[i])),
    decreases s.len(),
{
    lemma_jv_of_seq_len(s);
    if s.len() > 0 {
        lemma_jv_of_seq_is_map(s.subrange(0, s.len() - 1));
        assert(jv_of_seq(s) =~= Seq::new(s.len(), |i: int| jv_of(s[i])));
    } else {
        assert(jv_of_seq(s) =~= Seq::new(s.len(), |i: int| jv_of(s[i])));
    }
}

/// The field-shape list is the pointwise map of the key view and `jv_of`.
pub broadcast proof fn lemma_jv_of_fields_is_map(s: Seq<(String, Json)>)
    ensures
        #[trigger] jv_of_fields(s) == Seq::new(s.len(), |i: int| (s[i].0@, jv_of(s[i].1))),
    decreases s.len(),
{
    lemma_jv_of_fields_len(s);
    if s.len() > 0 {
        lemma_jv_of_fields_is_map(s.subrange(0, s.len() - 1));
        assert(jv_of_fields(s) =~= Seq::new(s.len(), |i: int| (s[i].0@, jv_of(s[i].1))));
    } else {
        assert(jv_of_fields(s) =~= Seq::new(s.len(), |i: int| (s[i].0@, jv_of(s[i].1))));
    }
}

impl DeepView for Json {
    type V = JsonV;

    open spec fn deep_view(&self) -> JsonV {
        jv_of(*self)
    }
}

/// The first value bound to `key` among `fields`, if any.
pub open spec fn obj_get_v(fields: Seq<(Seq<char>, JsonV)>, key: Seq<char>) -> Option<JsonV>
    decreases fields.len(),
{
    if fields.len() == 0 {
        None
    } else if fields[0].0 == key {
        Some(fields[0].1)
    } else {
        obj_get_v(fields.drop_first(), key)
    }
}

/// Copies a byte slice into an owned vector.
pub fn copy_bytes(bytes: &[u8]) -> (r: Vec<u8>)
    ensures
        r@ == bytes@,
{
    let mut out: Vec<u8> = Vec::new();
    let mut i: usize = 0;
    while i < bytes.len()
        invariant
            0 <= i <= bytes@.len(),
            out@ =~= bytes@.take(i as int),
        decreases bytes@.len() - i,
    {
        out.push(bytes[i]);
        assert(out@ =~= bytes@.take(i + 1));
        i += 1;
    }
    assert(bytes@.take(bytes@.len() as int) =~= bytes@);
    out
}

/// Looks `key` up in an object's field list, first binding wins.
pub fn obj_get<'a>(fields: &'a Vec<(String, Json)>, key: &str) -> (r: Option<&'a Json>)
    ensures
        match r {
            Some(j) => obj_get_v(jv_of_fields(fields@), key@) == Some(j.deep_view()),
            None => obj_get_v(jv_of_fields(fields@), key@) is None,
        },
{
    broadcast use lemma_jv_of_fields_index;

    let key_string: String = key.to_owned();
    let ghost all: Seq<(Seq<char>, JsonV)> = jv_of_fields(fields@);
    proof {
        lemma_jv_of_fields_len(fields@);
        assert(all.skip(0) =~= all);
    }
    let mut i: usize = 0;
    while i < fields.len()
        invariant
            0 <= i <= fields.len(),
            all == jv_of_fields(fields@),
            all.len() == fields@.len(),
            key_string@ == key@,
            obj_get_v(all, key@) == obj_get_v(all.skip(i as int), key@),
        decreases fields.len() - i,
    {
        let ghost rest = all.skip(i as int);
        proof {
            lemma_jv_of_fields_index(fields@, i as int);
            assert(rest[0] == all[i as int]);
        }
        if fields[i].0 == key_string {
            return Some(&fields[i].1);
        }
        assert(rest.drop_first() =~= all.skip(i + 1));
        i += 1;
    }
    assert(all.skip(fields.len() as int) =~= Seq::<(Seq<char>, JsonV)>::empty());
    None
}

impl Json {
    /// The string inside, when this is a `Str` node.
    pub fn as_str(&self) -> (r: Option<&String>)
        ensures
            match r {
                Some(s) => self.deep_view() == JsonV::Str(s@),
                None => !(self.deep_view() is Str),
            },
    {
        match self {
            Json::Str(s) => Some(s),
            _ => None,
        }
    }

    /// The integer inside, when this is an `Int` node.
    pub fn as_int(&self) -> (r: Option<i64>)
        ensures
            match r {
                Some(i) => self.deep_view() == JsonV::Int(i),
                None => !(self.deep_view() is Int),
            },
    {
        match self {
            Json::Int(i) => Some(*i),
            _ => None,
        }
    }

    /// The truth value inside, when this is a `Bool` node.
    pub fn as_bool(&self) -> (r: Option<bool>)
        ensures
            match r {
                Some(b) => self.deep_view() == JsonV::Bool(b),
                None => !(self.deep_view() is Bool),
            },
    {
        match self {
            Json::Bool(b) => Some(*b),
            _ => None,
        }
    }

    /// The elements inside, when this is an `Arr` node.
    pub fn as_arr(&self) -> (r: Option<&Vec<Json>>)
        ensures
            match r {
                Some(v) => self.deep_view() == JsonV::Arr(jv_of_seq(v@)),
                None => !(self.deep_view() is Arr),
            },
    {
        match self {
            Json::Arr(v) => Some(v),
            _ => None,
        }
    }

    /// The fields inside, when this is an `Obj` node.
    pub fn as_obj(&self) -> (r: Option<&Vec<(String, Json)>>)
        ensures
            match r {
                Some(m) => self.deep_view() == JsonV::Obj(jv_of_fields(m@)),
                None => !(self.deep_view() is Obj),
            },
    {
        match self {
            Json::Obj(m) => Some(m),
            _ => None,
        }
    }

    /// A structurally equal copy of this tree.
    #[verifier::loop_isolation(false)]
    pub fn deep_clone(&self) -> (r: Json)
        ensures
            r.deep_view() == self.deep_view(),
        decreases self,
    {
        match self {
            Json::Null => Json::Null,
            Json::Bool(b) => Json::Bool(*b),
            Json::Int(i) => Json::Int(*i),
            Json::Num(s) => Json::Num(s.clone()),
            Json::Str(s) => Json::Str(s.clone()),
            Json::Arr(v) => {
                let mut out: Vec<Json> = Vec::new();
                let mut i: usize = 0;
                while i < v.len()
                    invariant
                        0 <= i <= v.len(),
                        out@.len() == i,
                        forall|k: int| 0 <= k < i ==> jv_of(#[trigger] out@[k]) == jv_of(v@[k]),
                    decreases v.len() - i,
                {
                    proof {
                        assert(decreases_to!(*self => self->Arr_0));
                        assert(decreases_to!(self->Arr_0 => self->Arr_0@));
                        assert(decreases_to!(self->Arr_0@ => self->Arr_0@[i as int]));
                        assert(self->Arr_0@[i as int] == v@[i as int]);
                    }
                    out.push(v[i].deep_clone());
                    i += 1;
                }
                proof {
                    lemma_jv_of_seq_pointwise(out@, v@);
                }
                Json::Arr(out)
            },
            Json::Obj(m) => {
                let mut out: Vec<(String, Json)> = Vec::new();
                let mut i: usize = 0;
                while i < m.len()
                    invariant
                        0 <= i <= m.len(),
                        out@.len() == i,
                        forall|k: int| 0 <= k < i ==> (#[trigger] out@[k]).0@ == m@[k].0@
                            && jv_of(out@[k].1) == jv_of(m@[k].1),
                    decreases m.len() - i,
                {
                    proof {
                        assert(decreases_to!(*self => self->Obj_0));
                        assert(decreases_to!(self->Obj_0 => self->Obj_0@));
                        assert(decreases_to!(self->Obj_0@ => self->Obj_0@[i as int]));
                        assert(decreases_to!(self->Obj_0@[i as int] => self->Obj_0@[i as int].1));
                        assert(self->Obj_0@[i as int].1 == m@[i as int].1);
                    }
                    out.push((m[i].0.clone(), m[i].1.deep_clone()));
                    i += 1;
                }
                proof {
                    lemma_jv_of_fields_pointwise(out@, m@);
                }
                Json::Obj(out)
            },
        }
    }

    /// Looks a key up when this is an `Obj` node.
    pub fn get<'a>(&'a self, key: &str) -> (r: Option<&'a Json>)
        ensures
            match r {
                Some(j) => self.deep_view() is Obj && obj_get_v(self.deep_view()->Obj_0, key@)
                    == Some(j.deep_view()),
                None => !(self.deep_view() is Obj) || obj_get_v(self.deep_view()->Obj_0, key@) is None,
            },
    {
        match self {
            Json::Obj(m) => obj_get(m, key),
            _ => None,
        }
    }
}

/// What `serde_json` parses the given bytes into, when they are JSON text:
/// a function of the bytes alone.
pub uninterp spec fn json_of_bytes(bytes: Seq<u8>) -> Option<JsonV>;

/// The JSON text that `serde_json` prints the given tree as: a function of
/// the tree alone.
pub uninterp spec fn json_text_of(value: JsonV) -> Seq<u8>;

/// Relies on `serde_json::from_slice::<serde_json::Value>`: parsing JSON text
/// is deterministic in the input bytes, and `json_of_bytes` names its result.
#[verifier::external_body]
pub fn parse_json_bytes(bytes: &[u8]) -> (r: Option<Json>)
    ensures
        match r {
            Some(j) => json_of_bytes(bytes@) == Some(j.deep_view()),
            None => json_of_bytes(bytes@) is None,
        },
{
    match serde_json::from_slice::<serde_json::Value>(bytes) {
        Ok(v) => Some(json_from_value(&v)),
        Err(_) => None,
    }
}

/// Relies on `serde_json::to_vec`: compact JSON printing is deterministic in
/// the value alone, and `json_text_of` names its result. The compact printer
/// emits no whitespace of its own and escapes every control character inside
/// strings, so no line-feed byte ever appears in its output.
#[verifier::external_body]
pub fn render_json(j: &Json) -> (r: Vec<u8>)
    ensures
        r@ == json_text_of(j.deep_view()),
        r@.len() > 0,
        forall|i: int| 0 <= i < r@.len() ==> r@[i] != 10u8,
{
    serde_json::to_vec(&json_to_value(j)).unwrap_or_default()
}

/// The JSON text that `serde_json` prints the given tree as, seen as
/// characters: a function of the tree alone.
pub uninterp spec fn json_text_chars_of(value: JsonV) -> Seq<char>;

/// Relies on `serde_json::to_string`: compact JSON printing is deterministic
/// in the value alone, and `json_text_chars_of` names its result.
#[verifier::external_body]
pub fn render_json_string(j: &Json) -> (r: String)
    ensures
        r@ == json_text_chars_of(j.deep_view()),
        r@.len() > 0,
{
    serde_json::to_string(&json_to_value(j)).unwrap_or_default()
}

#[verifier::external_type_specification]
#[verifier::external_body]
pub struct ExValue(serde_json::Value);

/// Restructures a parsed `serde_json::Value` into the library's tree, arm by
/// arm; a number outside `i64` keeps its decimal text.
#[verifier::external_body]
fn json_from_value(v: &serde_json::Value) -> Json {
    match v {
        serde_json::Value::Null => Json::Null,
        serde_json::Value::Bool(b) => Json::Bool(*b),
        serde_json::Value::Number(n) => match n.as_i64() {
            Some(i) => Json::Int(i),
            None => Json::Num(n.to_string()),
        },
        serde_json::Value::String(s) => Json::Str(s.clone()),
        serde_json::Value::Array(a) => Json::Arr(a.iter().map(json_from_value).collect()),
        serde_json::Value::Object(m) => Json::Obj(
            m.iter().map(|(k, x)| (k.clone(), json_from_value(x))).collect(),
        ),
    }
}

/// Restructures the library's tree into a `serde_json::Value`, arm by arm;
/// a `Num` whose text is not a JSON number becomes `Null`.
#[verifier::external_body]
fn json_to_value(j: &Json) -> serde_json::Value {
    match j {
        Json::Null => serde_json::Value::Null,
        Json::Bool(b) => serde_json::Value::Bool(*b),
        Json::Int(i) => serde_json::Value::Number((*i).into()),
        Json::Num(s) => match s.parse::<serde_json::Number>() {
            Ok(n) => serde_json::Value::Number(n),
            Err(_) => serde_json::Value::Null,
        },
        Json::Str(s) => serde_json::Value::String(s.clone()),
        Json::Arr(a) => serde_json::Value::Array(a.iter().map(json_to_value).collect()),
        Json::Obj(m) => serde_json::Value::Object(
            m.iter().map(|(k, x)| (k.clone(), json_to_value(x))).collect(),
        ),
    }
}

/// The string bound to `key`, when there is one.
pub open spec fn get_str_v(fields: Seq<(Seq<char>, JsonV)>, key: Seq<char>) -> Option<Seq<char>> {
    match obj_get_v(fields, key) {
        Some(JsonV::Str(s)) => Some(s),
        _ => None,
    }
}

/// The string bound to `key`, absent and `null` both reading as `None`.
pub open spec fn get_opt_str_v(fields: Seq<(Seq<char>, JsonV)>, key: Seq<char>) -> Option<
    Option<Seq<char>>,
> {
    match obj_get_v(fields, key) {
        Some(JsonV::Str(s)) => Some(Some(s)),
        Some(JsonV::Null) => Some(None),
        None => Some(None),
        _ => None,
    }
}

/// The integer bound to `key`, when there is one.
pub open spec fn get_i64_v(fields: Seq<(Seq<char>, JsonV)>, key: Seq<char>) -> Option<i64> {
    match obj_get_v(fields, key) {
        Some(JsonV::Int(i)) => Some(i),
        _ => None,
    }
}

/// The integer bound to `key`, when it fits in `u32`.
pub open spec fn get_u32_v(fields: Seq<(Seq<char>, JsonV)>, key: Seq<char>) -> Option<u32> {
    match obj_get_v(fields, key) {
        Some(JsonV::Int(i)) => if 0 <= i && i <= u32::MAX {
            Some(i as u32)
        } else {
            None
        },
        _ => None,
    }
}

/// The integer bound to `key`, when it fits in `u16`.
pub open spec fn get_u16_v(fields: Seq<(Seq<char>, JsonV)>, key: Seq<char>) -> Option<u16> {
    match obj_get_v(fields, key) {
        Some(JsonV::Int(i)) => if 0 <= i && i <= u16::MAX {
            Some(i as u16)
        } else {
            None
        },
        _ => None,
    }
}

/// The integer bound to `key`, when it fits in `usize`.
pub open spec fn get_usize_v(fields: Seq<(Seq<char>, JsonV)>, key: Seq<char>) -> Option<usize> {
    match obj_get_v(fields, key) {
        Some(JsonV::Int(i)) => if 0 <= i && i <= usize::MAX {
            Some(i as usize)
        } else {
            None
        },
        _ => None,
    }
}

/// The integer bound to `key`, when it fits in `u64`.
pub open spec fn get_u64_v(fields: Seq<(Seq<char>, JsonV)>, key: Seq<char>) -> Option<u64> {
    match obj_get_v(fields, key) {
        Some(JsonV::Int(i)) => if 0 <= i {
            Some(i as u64)
        } else {
            None
        },
        _ => None,
    }
}

/// The elements bound to `key`, when an array is.
pub open spec fn get_arr_v(fields: Seq<(Seq<char>, JsonV)>, key: Seq<char>) -> Option<Seq<JsonV>> {
    match obj_get_v(fields, key) {
        Some(JsonV::Arr(items)) => Some(items),
        _ => None,
    }
}

/// The fields bound to `key`, when an object is.
pub open spec fn get_obj_v(fields: Seq<(Seq<char>, JsonV)>, key: Seq<char>) -> Option<
    Seq<(Seq<char>, JsonV)>,
> {
    match obj_get_v(fields, key) {
        Some(JsonV::Obj(inner)) => Some(inner),
        _ => None,
    }
}

/// The number text bound to `key`: absent and `null` read as `None`, an
/// integer or non-number value is rejected.
pub open spec fn get_opt_num_v(fields: Seq<(Seq<char>, JsonV)>, key: Seq<char>) -> Option<
    Option<Seq<char>>,
> {
    match obj_get_v(fields, key) {
        Some(JsonV::Num(s)) => Some(Some(s)),
        Some(JsonV::Null) => Some(None),
        None => Some(None),
        _ => None,
    }
}

/// The `usize` bound to `key`: absent and `null` read as `None`.
pub open spec fn get_opt_usize_v(fields: Seq<(Seq<char>, JsonV)>, key: Seq<char>) -> Option<
    Option<usize>,
> {
    match obj_get_v(fields, key) {
        Some(JsonV::Int(i)) => if 0 <= i && i <= usize::MAX {
            Some(Some(i as usize))
        } else {
            None
        },
        Some(JsonV::Null) => Some(None),
        None => Some(None),
        _ => None,
    }
}

/// The truth value bound to `key`, an absent field reading as `false`.
pub open spec fn get_bool_or_false_v(fields: Seq<(Seq<char>, JsonV)>, key: Seq<char>) -> Option<
    bool,
> {
    match obj_get_v(fields, key) {
        Some(JsonV::Bool(b)) => Some(b),
        None => Some(false),
        _ => None,
    }
}

/// A lookup in a concatenation searches the left part first.
pub proof fn lemma_obj_get_concat(s1: Seq<(Seq<char>, JsonV)>, s2: Seq<(Seq<char>, JsonV)>, key: Seq<char>)
    ensures
        obj_get_v(s1 + s2, key) == match obj_get_v(s1, key) {
            Some(v) => Some(v),
            None => obj_get_v(s2, key),
        },
    decreases s1.len(),
{
    if s1.len() == 0 {
        assert(s1 + s2 =~= s2);
    } else {
        assert((s1 + s2).drop_first() =~= s1.drop_first() + s2);
        assert((s1 + s2)[0] == s1[0]);
        lemma_obj_get_concat(s1.drop_first(), s2, key);
    }
}

/// Reads a string field out of an object's field list.
pub fn field_str(fields: &Vec<(String, Json)>, key: &str) -> (r: Option<String>)
    ensures
        match r {
            Some(s) => get_str_v(jv_of_fields(fields@), key@) == Some(s@),
            None => get_str_v(jv_of_fields(fields@), key@) is None,
        },
{
    match obj_get(fields, key) {
        Some(j) => match j.as_str() {
            Some(s) => Some(s.clone()),
            None => None,
        },
        None => None,
    }
}

/// Reads an optional string field, absent and `null` both reading as `None`.
pub fn field_opt_str(fields: &Vec<(String, Json)>, key: &str) -> (r: Option<Option<String>>)
    ensures
        match r {
            Some(Some(s)) => get_opt_str_v(jv_of_fields(fields@), key@) == Some(Some(s@)),
            Some(None) => get_opt_str_v(jv_of_fields(fields@), key@) == Some(None::<Seq<char>>),
            None => get_opt_str_v(jv_of_fields(fields@), key@) is None,
        },
{
    match obj_get(fields, key) {
        Some(j) => match j {
            Json::Str(s) => Some(Some(s.clone())),
            Json::Null => Some(None),
            _ => None,
        },
        None => Some(None),
    }
}

/// Reads an integer field out of an object's field list.
pub fn field_i64(fields: &Vec<(String, Json)>, key: &str) -> (r: Option<i64>)
    ensures
        r == get_i64_v(jv_of_fields(fields@), key@),
{
    match obj_get(fields, key) {
        Some(j) => j.as_int(),
        None => None,
    }
}

/// Reads a `u32` field out of an object's field list.
pub fn field_u32(fields: &Vec<(String, Json)>, key: &str) -> (r: Option<u32>)
    ensures
        r == get_u32_v(jv_of_fields(fields@), key@),
{
    match obj_get(fields, key) {
        Some(j) => match j.as_int() {
            Some(i) => if 0 <= i && i <= u32::MAX as i64 {
                Some(i as u32)
            } else {
                None
            },
            None => None,
        },
        None => None,
    }
}

/// Reads a `u16` field out of an object's field list.
pub fn field_u16(fields: &Vec<(String, Json)>, key: &str) -> (r: Option<u16>)
    ensures
        r == get_u16_v(jv_of_fields(fields@), key@),
{
    match obj_get(fields, key) {
        Some(j) => match j.as_int() {
            Some(i) => if 0 <= i && i <= u16::MAX as i64 {
                Some(i as u16)
            } else {
                None
            },
            None => None,
        },
        None => None,
    }
}

/// Reads a `usize` field out of an object's field list.
pub fn field_usize(fields: &Vec<(String, Json)>, key: &str) -> (r: Option<usize>)
    ensures
        r == get_usize_v(jv_of_fields(fields@), key@),
{
    match obj_get(fields, key) {
        Some(j) => match j.as_int() {
            Some(i) => if i >= 0 && (i as u64) <= (usize::MAX as u64) {
                Some(i as usize)
            } else {
                None
            },
            None => None,
        },
        None => None,
    }
}

/// Reads a `u64` field out of an object's field list.
pub fn field_u64(fields: &Vec<(String, Json)>, key: &str) -> (r: Option<u64>)
    ensures
        r == get_u64_v(jv_of_fields(fields@), key@),
{
    match obj_get(fields, key) {
        Some(j) => match j.as_int() {
            Some(i) => if i >= 0 {
                Some(i as u64)
            } else {
                None
            },
            None => None,
        },
        None => None,
    }
}

/// Reads an array field out of an object's field list.
pub fn field_arr<'a>(fields: &'a Vec<(String, Json)>, key: &str) -> (r: Option<&'a Vec<Json>>)
    ensures
        match r {
            Some(v) => get_arr_v(jv_of_fields(fields@), key@) == Some(jv_of_seq(v@)),
            None => get_arr_v(jv_of_fields(fields@), key@) is None,
        },
{
    match obj_get(fields, key) {
        Some(j) => j.as_arr(),
        None => None,
    }
}

/// Reads an object field out of an object's field list.
pub fn field_obj<'a>(fields: &'a Vec<(String, Json)>, key: &str) -> (r: Option<
    &'a Vec<(String, Json)>,
>)
    ensures
        match r {
            Some(m) => get_obj_v(jv_of_fields(fields@), key@) == Some(jv_of_fields(m@)),
            None => get_obj_v(jv_of_fields(fields@), key@) is None,
        },
{
    match obj_get(fields, key) {
        Some(j) => j.as_obj(),
        None => None,
    }
}

} // verus!
