//! Typed values carried by requests and responses, their declared types, and
//! the conversion of values to and from JSON and wire text.
use vstd::prelude::*;
use crate::json::{field, lemma_first_unique, lemma_no_first, member, names_within, only_names, Json};
use crate::text::views;
use vstd::string::*;
use crate::types::{warnings_of, AppId, EnterpriseId, TeamId, Warning};

verus! {

/// The declared type of a field.
#[derive(Clone, Copy, Debug, PartialEq, Eq, Structural)]
pub enum ValueType {
    Str,
    Bool,
    U64,
    AppId,
    EnterpriseId,
    TeamId,
    /// A list of conversation records; each record is a JSON object.
    Conversations,
    /// Paging and warning metadata of a response.
    Meta,
}

impl ValueType {
    /// Scalar types have a wire text; structured ones do not.
    pub open spec fn spec_is_scalar(self) -> bool {
        !(self is Conversations || self is Meta)
    }

    pub fn is_scalar(&self) -> (r: bool)
        ensures
            r == self.spec_is_scalar(),
    {
        match self {
            ValueType::Conversations | ValueType::Meta => false,
            _ => true,
        }
    }
}

/// Response metadata. Its shapes are told apart by which members are present.
#[derive(Debug)]
pub enum ResponseMeta {
    PagingWarning { next_cursor: String, messages: Vec<String>, warnings: Vec<Warning> },
    Paging { next_cursor: String },
    Warning { messages: Vec<String>, warnings: Vec<Warning> },
}

/// What a `ResponseMeta` holds, as plain sequences.
pub enum MetaModel {
    PagingWarning { next_cursor: Seq<char>, messages: Seq<Seq<char>>, warnings: Seq<Warning> },
    Paging { next_cursor: Seq<char> },
    Warning { messages: Seq<Seq<char>>, warnings: Seq<Warning> },
}

impl ResponseMeta {
    /// Its warning list, if it has one, is empty. Only such metadata has a
    /// JSON form, since the warning catalog names no code.
    pub open spec fn has_no_warnings(&self) -> bool {
        match self {
            ResponseMeta::PagingWarning { warnings, .. } => warnings@.len() == 0,
            ResponseMeta::Paging { .. } => true,
            ResponseMeta::Warning { warnings, .. } => warnings@.len() == 0,
        }
    }

    pub open spec fn model(&self) -> MetaModel {
        match self {
            ResponseMeta::PagingWarning { next_cursor, messages, warnings } => {
                MetaModel::PagingWarning {
                    next_cursor: next_cursor@,
                    messages: views(messages@),
                    warnings: warnings@,
                }
            },
            ResponseMeta::Paging { next_cursor } => MetaModel::Paging { next_cursor: next_cursor@ },
            ResponseMeta::Warning { messages, warnings } => MetaModel::Warning {
                messages: views(messages@),
                warnings: warnings@,
            },
        }
    }
}

/// A typed value.
#[derive(Debug)]
pub enum Value {
    Str(String),
    Bool(bool),
    U64(u64),
    AppId(AppId),
    EnterpriseId(EnterpriseId),
    TeamId(TeamId),
    Conversations(Vec<Json>),
    Meta(ResponseMeta),
}

/// What a `Value` holds, as plain sequences.
pub enum ValueModel {
    Str(Seq<char>),
    Bool(bool),
    U64(u64),
    AppId(Seq<char>),
    EnterpriseId(Seq<char>),
    TeamId(Seq<char>),
    Conversations(Seq<Json>),
    Meta(MetaModel),
}

impl Value {
    pub open spec fn model(&self) -> ValueModel {
        match self {
            Value::Str(s) => ValueModel::Str(s@),
            Value::Bool(b) => ValueModel::Bool(*b),
            Value::U64(n) => ValueModel::U64(*n),
            Value::AppId(a) => ValueModel::AppId(a.0@),
            Value::EnterpriseId(e) => ValueModel::EnterpriseId(e.0@),
            Value::TeamId(t) => ValueModel::TeamId(t.0@),
            Value::Conversations(v) => ValueModel::Conversations(v@),
            Value::Meta(m) => ValueModel::Meta(m.model()),
        }
    }

    pub open spec fn spec_type(&self) -> ValueType {
        match self {
            Value::Str(_) => ValueType::Str,
            Value::Bool(_) => ValueType::Bool,
            Value::U64(_) => ValueType::U64,
            Value::AppId(_) => ValueType::AppId,
            Value::EnterpriseId(_) => ValueType::EnterpriseId,
            Value::TeamId(_) => ValueType::TeamId,
            Value::Conversations(_) => ValueType::Conversations,
            Value::Meta(_) => ValueType::Meta,
        }
    }

    /// Every conversation record is a JSON object, and metadata carries no
    /// warnings.
    pub open spec fn wf(&self) -> bool {
        match self {
            Value::Conversations(v) => all_objects(v@),
            Value::Meta(m) => m.has_no_warnings(),
            _ => true,
        }
    }

    pub fn value_type(&self) -> (r: ValueType)
        ensures
            r == self.spec_type(),
    {
        match self {
            Value::Str(_) => ValueType::Str,
            Value::Bool(_) => ValueType::Bool,
            Value::U64(_) => ValueType::U64,
            Value::AppId(_) => ValueType::AppId,
            Value::EnterpriseId(_) => ValueType::EnterpriseId,
            Value::TeamId(_) => ValueType::TeamId,
            Value::Conversations(_) => ValueType::Conversations,
            Value::Meta(_) => ValueType::Meta,
        }
    }
}

pub open spec fn all_objects(a: Seq<Json>) -> bool {
    forall|i: int| 0 <= i < a.len() ==> #[trigger] a[i] is Object
}

pub open spec fn all_str(a: Seq<Json>) -> bool {
    forall|i: int| 0 <= i < a.len() ==> #[trigger] a[i] is Str
}

pub open spec fn str_view(j: Json) -> Seq<char> {
    match j {
        Json::Str(s) => s@,
        _ => Seq::empty(),
    }
}

pub open spec fn strs_of(a: Seq<Json>) -> Seq<Seq<char>> {
    a.map_values(|x: Json| str_view(x))
}

/// The text of a JSON string.
pub open spec fn text_of(j: Option<Json>) -> Option<Seq<char>> {
    match j {
        Some(Json::Str(s)) => Some(s@),
        _ => None,
    }
}

/// The texts of a JSON array of strings.
pub open spec fn texts_of(j: Option<Json>) -> Option<Seq<Seq<char>>> {
    match j {
        Some(Json::Array(a)) => if all_str(a@) {
            Some(strs_of(a@))
        } else {
            None
        },
        _ => None,
    }
}

/// The warnings named by a JSON array of warning codes.
pub open spec fn warning_list_of(j: Option<Json>) -> Option<Seq<Warning>> {
    match texts_of(j) {
        Some(cs) => match warnings_of(cs) {
            Ok(ws) => Some(ws),
            Err(_) => None,
        },
        None => None,
    }
}

/// The metadata a JSON value decodes to. The shapes are tried in a fixed order
/// and the first that matches wins; a shape allows no other members.
pub open spec fn meta_model(j: Json) -> Option<MetaModel> {
    match j {
        Json::Object(fs) => {
            let nc = text_of(field(fs@, "next_cursor"@));
            let ms = texts_of(field(fs@, "messages"@));
            let ws = warning_list_of(field(fs@, "warnings"@));
            if names_within(fs@, "next_cursor"@, "messages"@, "warnings"@) && nc is Some
                && ms is Some && ws is Some {
                Some(
                    MetaModel::PagingWarning {
                        next_cursor: nc.unwrap(),
                        messages: ms.unwrap(),
                        warnings: ws.unwrap(),
                    },
                )
            } else if names_within(fs@, "next_cursor"@, "next_cursor"@, "next_cursor"@)
                && nc is Some {
                Some(MetaModel::Paging { next_cursor: nc.unwrap() })
            } else if names_within(fs@, "messages"@, "warnings"@, "warnings"@) && ms is Some
                && ws is Some {
                Some(MetaModel::Warning { messages: ms.unwrap(), warnings: ws.unwrap() })
            } else {
                None
            }
        },
        _ => None,
    }
}

/// What a JSON value decodes to as a value of declared type `ty`.
pub open spec fn decode_model(ty: ValueType, j: Json) -> Option<ValueModel> {
    match (ty, j) {
        (ValueType::Str, Json::Str(s)) => Some(ValueModel::Str(s@)),
        (ValueType::Bool, Json::Bool(b)) => Some(ValueModel::Bool(b)),
        (ValueType::U64, Json::UInt(n)) => Some(ValueModel::U64(n)),
        (ValueType::AppId, Json::Str(s)) => Some(ValueModel::AppId(s@)),
        (ValueType::EnterpriseId, Json::Str(s)) => Some(ValueModel::EnterpriseId(s@)),
        (ValueType::TeamId, Json::Str(s)) => Some(ValueModel::TeamId(s@)),
        (ValueType::Conversations, Json::Array(a)) => if all_objects(a@) {
            Some(ValueModel::Conversations(a@))
        } else {
            None
        },
        (ValueType::Meta, j) => match meta_model(j) {
            Some(m) => Some(ValueModel::Meta(m)),
            None => None,
        },
        _ => None,
    }
}

/// The text of a JSON string.
fn text_in(j: &Json) -> (r: Option<String>)
    ensures
        match r {
            Some(s) => text_of(Some(*j)) == Some(s@),
            None => text_of(Some(*j)) is None,
        },
{
    match j {
        Json::Str(s) => Some(s.clone()),
        _ => None,
    }
}

/// The texts of a JSON array of strings.
fn texts_in(j: &Json) -> (r: Option<Vec<String>>)
    ensures
        match r {
            Some(v) => texts_of(Some(*j)) == Some(views(v@)),
            None => texts_of(Some(*j)) is None,
        },
{
    match j {
        Json::Array(a) => {
            let mut out: Vec<String> = Vec::new();
            let mut i: usize = 0;
            while i < a.len()
                invariant
                    *j == Json::Array(*a),
                    i <= a@.len(),
                    all_str(a@.subrange(0, i as int)),
                    views(out@) == strs_of(a@.subrange(0, i as int)),
                decreases a@.len() - i,
            {
                match &a[i] {
                    Json::Str(s) => {
                        let ghost before = out@;
                        out.push(s.clone());
                        assert(a@.subrange(0, i + 1) =~= a@.subrange(0, i as int).push(a@[i as int]));
                        assert(views(out@) =~= views(before).push(s@));
                        assert(strs_of(a@.subrange(0, i + 1)) =~= strs_of(
                            a@.subrange(0, i as int),
                        ).push(s@));
                    },
                    _ => {
                        assert(!(a@[i as int] is Str));
                        assert(!all_str(a@));
                        return None;
                    },
                }
                i = i + 1;
            }
            assert(a@.subrange(0, i as int) =~= a@);
            Some(out)
        },
        _ => None,
    }
}

/// Whether every element of `a` is a JSON object.
fn objects_only(a: &Vec<Json>) -> (r: bool)
    ensures
        r == all_objects(a@),
{
    let mut i: usize = 0;
    while i < a.len()
        invariant
            i <= a@.len(),
            forall|j: int| 0 <= j < i ==> #[trigger] a@[j] is Object,
        decreases a@.len() - i,
    {
        match &a[i] {
            Json::Object(_) => {},
            _ => {
                return false;
            },
        }
        i = i + 1;
    }
    true
}

impl ResponseMeta {
    /// Decodes metadata from JSON, trying its shapes in their fixed order.
    pub fn from_json(j: &Json) -> (r: Option<ResponseMeta>)
        ensures
            match r {
                Some(m) => meta_model(*j) == Some(m.model()),
                None => meta_model(*j) is None,
            },
    {
        match j {
            Json::Object(fs) => {
                let nc = match member(fs, "next_cursor") {
                    Some(x) => text_in(x),
                    None => None,
                };
                let ms = match member(fs, "messages") {
                    Some(x) => texts_in(x),
                    None => None,
                };
                let ws = match member(fs, "warnings") {
                    Some(x) => match texts_in(x) {
                        Some(cs) => match Warning::from_code_list(&cs) {
                            Ok(w) => Some(w),
                            Err(_) => None,
                        },
                        None => None,
                    },
                    None => None,
                };
                if only_names(fs, "next_cursor", "messages", "warnings") && nc.is_some()
                    && ms.is_some() && ws.is_some() {
                    Some(
                        ResponseMeta::PagingWarning {
                            next_cursor: nc.unwrap(),
                            messages: ms.unwrap(),
                            warnings: ws.unwrap(),
                        },
                    )
                } else if only_names(fs, "next_cursor", "next_cursor", "next_cursor")
                    && nc.is_some() {
                    Some(ResponseMeta::Paging { next_cursor: nc.unwrap() })
                } else if only_names(fs, "messages", "warnings", "warnings") && ms.is_some()
                    && ws.is_some() {
                    Some(ResponseMeta::Warning { messages: ms.unwrap(), warnings: ws.unwrap() })
                } else {
                    None
                }
            },
            _ => None,
        }
    }
}


/// JSON strings holding the texts of `v`, in order.
fn strings_json(v: &Vec<String>) -> (a: Vec<Json>)
    ensures
        all_str(a@),
        strs_of(a@) == views(v@),
{
    let mut a: Vec<Json> = Vec::new();
    let mut i: usize = 0;
    while i < v.len()
        invariant
            i <= v@.len(),
            a@.len() == i,
            forall|j: int| 0 <= j < i ==> #[trigger] a@[j] is Str && str_view(a@[j]) == v@[j]@,
        decreases v@.len() - i,
    {
        a.push(Json::Str(v[i].clone()));
        i = i + 1;
    }
    assert(strs_of(a@) =~= views(v@));
    a
}


/// No warning list: the catalog names no code, so only an empty list has a JSON form.
fn no_warnings_json() -> (a: Vec<Json>)
    ensures
        all_str(a@),
        warnings_of(strs_of(a@)) == Ok::<Seq<Warning>, Seq<char>>(Seq::empty()),
{
    let a: Vec<Json> = Vec::new();
    assert(strs_of(a@) =~= Seq::<Seq<char>>::empty());
    a
}

/// The member names of metadata are pairwise distinct.
proof fn lemma_meta_names_distinct()
    ensures
        "next_cursor"@ != "messages"@,
        "next_cursor"@ != "warnings"@,
        "messages"@ != "warnings"@,
{
    reveal_strlit("next_cursor");
    reveal_strlit("messages");
    reveal_strlit("warnings");
    assert("next_cursor"@.len() != "messages"@.len());
    assert("next_cursor"@.len() != "warnings"@.len());
    assert("messages"@[0] != "warnings"@[0]);
}

impl ResponseMeta {
    /// The JSON object holding this metadata's members.
    pub fn to_json(&self) -> (j: Json)
        requires
            self.has_no_warnings(),
        ensures
            meta_model(j) == Some(self.model()),
    {
        proof {
            lemma_meta_names_distinct();
        }
        let mut fs: Vec<(String, Json)> = Vec::new();
        match self {
            ResponseMeta::PagingWarning { next_cursor, messages, warnings } => {
                fs.push(("next_cursor".to_owned(), Json::Str(next_cursor.clone())));
                fs.push(("messages".to_owned(), Json::Array(strings_json(messages))));
                fs.push(("warnings".to_owned(), Json::Array(no_warnings_json())));
                proof {
                    assert(warnings@ =~= Seq::<Warning>::empty());
                    lemma_first_unique(fs@, "next_cursor"@, 0);
                    lemma_first_unique(fs@, "messages"@, 1);
                    lemma_first_unique(fs@, "warnings"@, 2);
                }
            },
            ResponseMeta::Paging { next_cursor } => {
                fs.push(("next_cursor".to_owned(), Json::Str(next_cursor.clone())));
                proof {
                    lemma_first_unique(fs@, "next_cursor"@, 0);
                    lemma_no_first(fs@, "messages"@);
                }
            },
            ResponseMeta::Warning { messages, warnings } => {
                fs.push(("messages".to_owned(), Json::Array(strings_json(messages))));
                fs.push(("warnings".to_owned(), Json::Array(no_warnings_json())));
                proof {
                    assert(warnings@ =~= Seq::<Warning>::empty());
                    lemma_no_first(fs@, "next_cursor"@);
                    lemma_first_unique(fs@, "messages"@, 0);
                    lemma_first_unique(fs@, "warnings"@, 1);
                    assert(fs@[0].0@ != "next_cursor"@);
                }
            },
        }
        Json::Object(fs)
    }
}

impl Value {
    /// Decodes `j` as a value of declared type `ty`.
    pub fn from_json(ty: ValueType, j: Json) -> (r: Option<Value>)
        ensures
            match r {
                Some(v) => decode_model(ty, j) == Some(v.model()) && v.spec_type() == ty,
                None => decode_model(ty, j) is None,
            },
    {
        match ty {
            ValueType::Meta => match ResponseMeta::from_json(&j) {
                Some(m) => Some(Value::Meta(m)),
                None => None,
            },
            ValueType::Conversations => match j {
                Json::Array(a) => if objects_only(&a) {
                    Some(Value::Conversations(a))
                } else {
                    None
                },
                _ => None,
            },
            ValueType::Bool => match j {
                Json::Bool(b) => Some(Value::Bool(b)),
                _ => None,
            },
            ValueType::U64 => match j {
                Json::UInt(n) => Some(Value::U64(n)),
                _ => None,
            },
            _ => match j {
                Json::Str(s) => match ty {
                    ValueType::Str => Some(Value::Str(s)),
                    ValueType::AppId => Some(Value::AppId(AppId(s))),
                    ValueType::EnterpriseId => Some(Value::EnterpriseId(EnterpriseId(s))),
                    _ => Some(Value::TeamId(TeamId(s))),
                },
                _ => None,
            },
        }
    }

    /// The JSON form of this value; it decodes back to the same value.
    pub fn to_json(self) -> (j: Json)
        requires
            self.wf(),
        ensures
            decode_model(self.spec_type(), j) == Some(self.model()),
    {
        match self {
            Value::Str(s) => Json::Str(s),
            Value::Bool(b) => Json::Bool(b),
            Value::U64(n) => Json::UInt(n),
            Value::AppId(a) => Json::Str(a.0),
            Value::EnterpriseId(e) => Json::Str(e.0),
            Value::TeamId(t) => Json::Str(t.0),
            Value::Conversations(v) => Json::Array(v),
            Value::Meta(m) => m.to_json(),
        }
    }

    /// The wire text of a scalar value.
    pub fn wire_text(&self) -> (r: String)
        requires
            self.spec_type().spec_is_scalar(),
        ensures
            r@ == wire_text(self.model()),
    {
        match self {
            Value::Str(s) => s.clone(),
            Value::Bool(b) => if *b {
                "true".to_owned()
            } else {
                "false".to_owned()
            },
            Value::U64(n) => decimal_text(*n),
            Value::AppId(a) => a.0.clone(),
            Value::EnterpriseId(e) => e.0.clone(),
            Value::TeamId(t) => t.0.clone(),
            _ => String::new(),
        }
    }
}

/// The decimal digit `d` as a character.
pub open spec fn digit_char(d: nat) -> char {
    if d == 0 { '0' } else if d == 1 { '1' } else if d == 2 { '2' } else if d == 3 { '3' }
    else if d == 4 { '4' } else if d == 5 { '5' } else if d == 6 { '6' } else if d == 7 { '7' }
    else if d == 8 { '8' } else { '9' }
}

/// The decimal numeral of `n`, without leading zeros.
pub open spec fn decimal(n: nat) -> Seq<char>
    decreases n,
{
    if n < 10 {
        seq![digit_char(n)]
    } else {
        decimal(n / 10).push(digit_char(n % 10))
    }
}

/// The wire text of a value: strings and identifiers as they are, booleans as
/// `true` or `false`, integers in decimal.
pub open spec fn wire_text(m: ValueModel) -> Seq<char> {
    match m {
        ValueModel::Str(s) => s,
        ValueModel::Bool(b) => if b {
            "true"@
        } else {
            "false"@
        },
        ValueModel::U64(n) => decimal(n as nat),
        ValueModel::AppId(s) => s,
        ValueModel::EnterpriseId(s) => s,
        ValueModel::TeamId(s) => s,
        _ => Seq::empty(),
    }
}

/// The decimal digit `d` as a one-character string.
fn digit_str(d: u64) -> (r: &'static str)
    requires
        d < 10,
    ensures
        r@ == seq![digit_char(d as nat)],
{
    proof {
        reveal_strlit("0");
        reveal_strlit("1");
        reveal_strlit("2");
        reveal_strlit("3");
        reveal_strlit("4");
        reveal_strlit("5");
        reveal_strlit("6");
        reveal_strlit("7");
        reveal_strlit("8");
        reveal_strlit("9");
    }
    let r = if d == 0 { "0" } else if d == 1 { "1" } else if d == 2 { "2" } else if d == 3 { "3" }
    else if d == 4 { "4" } else if d == 5 { "5" } else if d == 6 { "6" } else if d == 7 { "7" }
    else if d == 8 { "8" } else { "9" };
    assert(r@ =~= seq![digit_char(d as nat)]);
    r
}

/// The decimal numeral of `n`.
fn decimal_text(n: u64) -> (r: String)
    ensures
        r@ == decimal(n as nat),
    decreases n,
{
    if n < 10 {
        String::from_str(digit_str(n))
    } else {
        let mut s = decimal_text(n / 10);
        s.append(digit_str(n % 10));
        s
    }
}

} // verus!
