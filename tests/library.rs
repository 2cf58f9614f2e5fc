use slack_api::dispatch::{auth_header, request_url, token_may_call};
use slack_api::endpoint::{endpoint_by_path, Endpoint, InputField, OutputField, Presence};
use slack_api::envelope::{decode, decode_response, encode_outputs, DecodeError, Envelope};
use slack_api::json::Json;
use slack_api::marshal::{marshal, MarshalError, ParamBag};
use slack_api::scopes::{OldScope, Scope, TokenType};
use slack_api::types::{
    validate_scope_for_token, AppToken, BotToken, Error, RateLimit, TeamId, Token, UserToken,
    Warning,
};
use slack_api::values::{ResponseMeta, Value, ValueType};

fn s(x: &str) -> String {
    x.to_string()
}

fn obj(members: Vec<(&str, Json)>) -> Json {
    Json::Object(members.into_iter().map(|(k, v)| (s(k), v)).collect())
}

fn conversations_list() -> Endpoint {
    endpoint_by_path("conversations.list").expect("catalog entry")
}

fn wire(w: &[(String, String)]) -> Vec<(&str, &str)> {
    w.iter().map(|(k, v)| (k.as_str(), v.as_str())).collect()
}

#[test]
fn token_bot_kind() {
    let t = Token::new("xoxb-123").expect("bot token");
    assert_eq!(t.kind(), TokenType::Bot);
    assert_eq!(t.as_str(), "xoxb-123");
}

#[test]
fn token_app_kind() {
    let t = Token::new("xapp-1").expect("app token");
    assert_eq!(t.kind(), TokenType::App);
}

#[test]
fn token_user_kind() {
    assert_eq!(Token::new("xoxp-9").unwrap().kind(), TokenType::User);
}

#[test]
fn token_unknown_prefix() {
    assert!(Token::new("nope").is_none());
    assert!(Token::new("").is_none());
    assert!(Token::new("xox").is_none());
}

#[test]
fn typed_tokens() {
    assert!(AppToken::new("xapp-1").is_some());
    assert!(AppToken::new("xoxb-1").is_none());
    assert!(BotToken::new("xoxb-1").is_some());
    assert!(BotToken::new("xoxp-1").is_none());
    assert!(UserToken::new("xoxp-1").is_some());
    assert!(UserToken::new("xapp-1").is_none());
}

#[test]
fn scope_lookup() {
    let sc = Scope::from_name("channels:read");
    assert_eq!(sc.name(), "channels:read");
    assert_eq!(sc.token_types(), &[TokenType::Bot, TokenType::User]);
    let admin = Scope::from_name("admin");
    assert_eq!(admin.token_types(), &[TokenType::User]);
    assert!(Scope::lookup("no:such").is_none());
    assert_ne!(OldScope::Admin, OldScope::MpimRead);
}

#[test]
fn scope_validation_for_token() {
    let bot = Token::new("xoxb-1").unwrap();
    let app = Token::new("xapp-1").unwrap();
    assert!(validate_scope_for_token(&Scope::from_name("im:read"), &bot));
    assert!(!validate_scope_for_token(&Scope::from_name("admin"), &bot));
    assert!(!validate_scope_for_token(&Scope::from_name("im:read"), &app));
    let ep = conversations_list();
    assert!(token_may_call(&ep, &bot));
    assert!(!token_may_call(&ep, &app));
}

#[test]
fn error_codes_single() {
    assert_eq!(Error::from_codes("not_authed").unwrap(), vec![Error::NotAuthed]);
}

#[test]
fn error_codes_in_order() {
    assert_eq!(
        Error::from_codes("not_authed,account_inactive").unwrap(),
        vec![Error::NotAuthed, Error::AccountInactive]
    );
}

#[test]
fn error_code_unknown() {
    assert_eq!(Error::from_codes("not_authed,bogus").unwrap_err(), "bogus");
    assert_eq!(Error::from_codes("").unwrap_err(), "");
}

#[test]
fn warning_codes_all_unknown() {
    assert_eq!(Warning::from_codes("missing_charset").unwrap_err(), "missing_charset");
    assert_eq!(Warning::from_codes("odd,other").unwrap_err(), "odd");
    assert_eq!(Warning::from_codes("").unwrap_err(), "");
    assert!(Warning::from_code("Reserved").is_none());
}

#[test]
fn catalog_entries() {
    let ep = conversations_list();
    assert_eq!(ep.api_str(), "conversations.list");
    assert_eq!(ep.rate_limit(), Some(RateLimit::Tier2));
    let names: Vec<&str> = ep.inputs().iter().map(|f| f.name).collect();
    assert_eq!(names, vec!["cursor", "exclude_archived", "limit", "team_id", "types"]);
    let outs: Vec<&str> = ep.outputs().iter().map(|f| f.name).collect();
    assert_eq!(outs, vec!["channels", "response_metadata"]);
    let scopes: Vec<&str> = ep.required_scopes().iter().map(|x| x.name()).collect();
    assert_eq!(scopes, vec!["channels:read", "groups:read", "im:read", "mpim:read"]);
    assert!(endpoint_by_path("admin.apps.approve").is_some());
    assert!(endpoint_by_path("admin.analytics.getFile").is_some());
    assert!(endpoint_by_path("chat.postMessage").is_none());
}

#[test]
fn endpoint_new_rejects_duplicates() {
    let f = InputField { name: "a", ty: ValueType::Str, presence: Presence::Optional };
    assert!(Endpoint::new("x", Vec::new(), None, vec![f, f], Vec::new()).is_none());
    let g = OutputField { name: "o", ty: ValueType::Bool };
    assert!(Endpoint::new("x", Vec::new(), None, Vec::new(), vec![g, g]).is_none());
    let h = InputField { name: "m", ty: ValueType::Meta, presence: Presence::Optional };
    assert!(Endpoint::new("x", Vec::new(), None, vec![h], Vec::new()).is_none());
    assert!(Endpoint::new("x", Vec::new(), None, vec![f], vec![g]).is_some());
}

#[test]
fn marshal_exclude_archived() {
    let mut bag = ParamBag::new();
    bag.insert("exclude_archived", Value::Bool(true));
    let w = marshal(&conversations_list(), &bag).unwrap();
    assert_eq!(wire(&w), vec![("exclude_archived", "true")]);
}

#[test]
fn marshal_empty_bag() {
    let w = marshal(&conversations_list(), &ParamBag::new()).unwrap();
    assert!(w.is_empty());
}

#[test]
fn marshal_all_present_in_declaration_order() {
    let mut bag = ParamBag::new();
    bag.insert("types", Value::Str(s("public_channel")));
    bag.insert("limit", Value::U64(200));
    bag.insert("team_id", Value::TeamId(TeamId(s("T1"))));
    bag.insert("exclude_archived", Value::Bool(false));
    bag.insert("cursor", Value::Str(s("abc")));
    let w = marshal(&conversations_list(), &bag).unwrap();
    assert_eq!(
        wire(&w),
        vec![
            ("cursor", "abc"),
            ("exclude_archived", "false"),
            ("limit", "200"),
            ("team_id", "T1"),
            ("types", "public_channel"),
        ]
    );
}

#[test]
fn marshal_integer_text() {
    let mut bag = ParamBag::new();
    bag.insert("limit", Value::U64(0));
    assert_eq!(wire(&marshal(&conversations_list(), &bag).unwrap()), vec![("limit", "0")]);
    let mut bag = ParamBag::new();
    bag.insert("limit", Value::U64(u64::MAX));
    assert_eq!(
        wire(&marshal(&conversations_list(), &bag).unwrap()),
        vec![("limit", "18446744073709551615")]
    );
}

#[test]
fn marshal_insert_replaces() {
    let mut bag = ParamBag::new();
    bag.insert("limit", Value::U64(5));
    bag.insert("limit", Value::U64(7));
    assert_eq!(wire(&marshal(&conversations_list(), &bag).unwrap()), vec![("limit", "7")]);
}

#[test]
fn marshal_missing_required() {
    let ep = endpoint_by_path("admin.analytics.getFile").unwrap();
    let mut bag = ParamBag::new();
    bag.insert("date", Value::Str(s("2020-09-01")));
    match marshal(&ep, &bag) {
        Err(MarshalError::MissingRequired(n)) => assert_eq!(n, "type"),
        other => panic!("unexpected {:?}", other),
    }
}

#[test]
fn marshal_required_present() {
    let ep = endpoint_by_path("admin.analytics.getFile").unwrap();
    let mut bag = ParamBag::new();
    bag.insert("metadata_only", Value::Bool(true));
    bag.insert("type", Value::Str(s("member")));
    let w = marshal(&ep, &bag).unwrap();
    assert_eq!(wire(&w), vec![("type", "member"), ("metadata_only", "true")]);
}

#[test]
fn marshal_type_mismatch() {
    let mut bag = ParamBag::new();
    bag.insert("limit", Value::Str(s("ten")));
    match marshal(&conversations_list(), &bag) {
        Err(MarshalError::TypeMismatch(n)) => assert_eq!(n, "limit"),
        other => panic!("unexpected {:?}", other),
    }
}

#[test]
fn marshal_unknown_parameter() {
    let mut bag = ParamBag::new();
    bag.insert("limit", Value::U64(3));
    bag.insert("colour", Value::Str(s("red")));
    match marshal(&conversations_list(), &bag) {
        Err(MarshalError::UnknownParameter(n)) => assert_eq!(n, "colour"),
        other => panic!("unexpected {:?}", other),
    }
}

#[test]
fn marshal_conditionally_required() {
    let ep = Endpoint::new(
        "x.y",
        Vec::new(),
        None,
        vec![
            InputField { name: "a", ty: ValueType::Str, presence: Presence::RequiredWith("b") },
            InputField { name: "b", ty: ValueType::Str, presence: Presence::Optional },
        ],
        Vec::new(),
    )
    .unwrap();
    assert!(marshal(&ep, &ParamBag::new()).unwrap().is_empty());
    let mut bag = ParamBag::new();
    bag.insert("b", Value::Str(s("1")));
    match marshal(&ep, &bag) {
        Err(MarshalError::MissingRequired(n)) => assert_eq!(n, "a"),
        other => panic!("unexpected {:?}", other),
    }
}

fn api_failure(code: &str) -> Json {
    obj(vec![("ok", Json::Bool(false)), ("error", Json::Str(s(code)))])
}

#[test]
fn decode_not_authed() {
    match decode_response(&conversations_list(), api_failure("not_authed")) {
        Err(DecodeError::ApiError(es)) => assert_eq!(es, vec![Error::NotAuthed]),
        other => panic!("unexpected {:?}", other),
    }
}

#[test]
fn decode_two_errors_in_order() {
    match decode_response(&conversations_list(), api_failure("not_authed,account_inactive")) {
        Err(DecodeError::ApiError(es)) => {
            assert_eq!(es, vec![Error::NotAuthed, Error::AccountInactive])
        }
        other => panic!("unexpected {:?}", other),
    }
}

#[test]
fn decode_unknown_error_code() {
    match decode_response(&conversations_list(), api_failure("ratelimited_badly")) {
        Err(DecodeError::UnknownErrorCode(c)) => assert_eq!(c, "ratelimited_badly"),
        other => panic!("unexpected {:?}", other),
    }
}

#[test]
fn decode_failure_without_error_is_malformed() {
    let j = obj(vec![("ok", Json::Bool(false))]);
    assert!(matches!(
        decode_response(&conversations_list(), j),
        Err(DecodeError::MalformedEnvelope)
    ));
}

#[test]
fn decode_not_an_envelope() {
    let ep = conversations_list();
    assert!(matches!(decode_response(&ep, Json::Null), Err(DecodeError::MalformedEnvelope)));
    let j = obj(vec![("ok", Json::Str(s("yes")))]);
    assert!(matches!(decode_response(&ep, j), Err(DecodeError::MalformedEnvelope)));
    let j = obj(vec![("ok", Json::Bool(true)), ("warnings", Json::UInt(1))]);
    assert!(matches!(decode_response(&ep, j), Err(DecodeError::MalformedEnvelope)));
}

fn channel(id: &str) -> Json {
    obj(vec![("id", Json::Str(s(id))), ("name", Json::Str(s("general")))])
}

#[test]
fn decode_conversations_list_paging() {
    let j = obj(vec![
        ("ok", Json::Bool(true)),
        ("channels", Json::Array(vec![channel("C1"), channel("C2")])),
        ("response_metadata", obj(vec![("next_cursor", Json::Str(s("abc")))])),
    ]);
    let resp = decode_response(&conversations_list(), j).unwrap();
    assert!(resp.warnings.is_none());
    assert_eq!(resp.data.len(), 2);
    match &resp.data[0] {
        Value::Conversations(cs) => {
            assert_eq!(cs.len(), 2);
            match &cs[1] {
                Json::Object(fs) => assert!(matches!(&fs[0].1, Json::Str(x) if x == "C2")),
                other => panic!("unexpected {:?}", other),
            }
        }
        other => panic!("unexpected {:?}", other),
    }
    match &resp.data[1] {
        Value::Meta(ResponseMeta::Paging { next_cursor }) => assert_eq!(next_cursor, "abc"),
        other => panic!("unexpected {:?}", other),
    }
}

#[test]
fn decode_unknown_warning_code() {
    let j = obj(vec![
        ("ok", Json::Bool(true)),
        ("warnings", Json::Str(s("strange,missing_charset"))),
        ("channels", Json::Array(Vec::new())),
        ("response_metadata", obj(vec![("next_cursor", Json::Str(s("")))])),
    ]);
    match decode_response(&conversations_list(), j) {
        Err(DecodeError::UnknownWarningCode(c)) => assert_eq!(c, "strange"),
        other => panic!("unexpected {:?}", other),
    }
}

#[test]
fn decode_leftover_fields_fail() {
    let j = obj(vec![
        ("ok", Json::Bool(true)),
        ("channels", Json::Array(Vec::new())),
        ("extra", Json::UInt(1)),
        ("response_metadata", obj(vec![("next_cursor", Json::Str(s("")))])),
        ("more", Json::Null),
    ]);
    match decode_response(&conversations_list(), j) {
        Err(DecodeError::LeftoverFields(ns)) => assert_eq!(ns, vec![s("extra"), s("more")]),
        other => panic!("unexpected {:?}", other),
    }
}

#[test]
fn decode_missing_output() {
    let j = obj(vec![("ok", Json::Bool(true)), ("channels", Json::Array(Vec::new()))]);
    match decode_response(&conversations_list(), j) {
        Err(DecodeError::MissingField(n)) => assert_eq!(n, "response_metadata"),
        other => panic!("unexpected {:?}", other),
    }
}

#[test]
fn decode_output_of_wrong_type() {
    let j = obj(vec![
        ("ok", Json::Bool(true)),
        ("channels", Json::Array(vec![Json::UInt(3)])),
        ("response_metadata", obj(vec![("next_cursor", Json::Str(s("")))])),
    ]);
    match decode_response(&conversations_list(), j) {
        Err(DecodeError::FieldDecodeError(n)) => assert_eq!(n, "channels"),
        other => panic!("unexpected {:?}", other),
    }
}

#[test]
fn decode_no_outputs_is_unit() {
    let ep = endpoint_by_path("admin.apps.approve").unwrap();
    let resp = decode_response(&ep, obj(vec![("ok", Json::Bool(true))])).unwrap();
    assert!(resp.data.is_empty());
}

#[test]
fn meta_shapes_in_order() {
    let both = obj(vec![
        ("next_cursor", Json::Str(s("n"))),
        ("messages", Json::Array(vec![Json::Str(s("m1"))])),
        ("warnings", Json::Array(Vec::new())),
    ]);
    match ResponseMeta::from_json(&both) {
        Some(ResponseMeta::PagingWarning { next_cursor, messages, warnings }) => {
            assert_eq!(next_cursor, "n");
            assert_eq!(messages, vec![s("m1")]);
            assert!(warnings.is_empty());
        }
        other => panic!("unexpected {:?}", other),
    }
    let coded = obj(vec![
        ("next_cursor", Json::Str(s("n"))),
        ("messages", Json::Array(Vec::new())),
        ("warnings", Json::Array(vec![Json::Str(s("superfluous_charset"))])),
    ]);
    assert!(ResponseMeta::from_json(&coded).is_none());
    let warn = obj(vec![
        ("messages", Json::Array(Vec::new())),
        ("warnings", Json::Array(Vec::new())),
    ]);
    assert!(matches!(ResponseMeta::from_json(&warn), Some(ResponseMeta::Warning { .. })));
    let extra = obj(vec![("next_cursor", Json::Str(s("n"))), ("x", Json::Null)]);
    assert!(ResponseMeta::from_json(&extra).is_none());
    assert!(ResponseMeta::from_json(&Json::Array(Vec::new())).is_none());
}

#[test]
fn round_trip_through_outputs() {
    let ep = conversations_list();
    let values = vec![
        Value::Conversations(vec![channel("C9")]),
        Value::Meta(ResponseMeta::PagingWarning {
            next_cursor: s("zz"),
            messages: vec![s("hello")],
            warnings: Vec::new(),
        }),
    ];
    let members = encode_outputs(&ep, values);
    let env = Envelope { ok: true, warnings: None, error: None, other: members };
    let resp = decode(&ep, env).unwrap();
    match &resp.data[..] {
        [Value::Conversations(cs), Value::Meta(ResponseMeta::PagingWarning { next_cursor, messages, warnings })] =>
        {
            assert_eq!(cs.len(), 1);
            assert_eq!(next_cursor, "zz");
            assert_eq!(messages, &vec![s("hello")]);
            assert!(warnings.is_empty());
        }
        other => panic!("unexpected {:?}", other),
    }
}

#[test]
fn round_trip_scalars() {
    let ep = Endpoint::new(
        "x.y",
        Vec::new(),
        None,
        Vec::new(),
        vec![
            OutputField { name: "n", ty: ValueType::U64 },
            OutputField { name: "t", ty: ValueType::TeamId },
            OutputField { name: "f", ty: ValueType::Bool },
        ],
    )
    .unwrap();
    let members = encode_outputs(
        &ep,
        vec![Value::U64(42), Value::TeamId(TeamId(s("T7"))), Value::Bool(false)],
    );
    let resp = decode(&ep, Envelope { ok: true, warnings: None, error: None, other: members })
        .unwrap();
    assert!(matches!(resp.data[0], Value::U64(42)));
    assert!(matches!(&resp.data[1], Value::TeamId(TeamId(t)) if t == "T7"));
    assert!(matches!(resp.data[2], Value::Bool(false)));
}

#[test]
fn dispatch_helpers() {
    let ep = conversations_list();
    assert_eq!(request_url(&ep), "https://slack.com/api/conversations.list");
    let t = Token::new("xoxb-42").unwrap();
    assert_eq!(auth_header(&t), "Bearer xoxb-42");
}

#[test]
fn catalog_scopes_and_types() {
    let ep = endpoint_by_path("admin.apps.approve").unwrap();
    let scopes = ep.required_scopes();
    assert_eq!(scopes.len(), 1);
    assert_eq!(scopes[0].name(), "admin.apps:write");
    assert_eq!(scopes[0].token_types(), &[TokenType::User]);
    let tys: Vec<ValueType> = ep.inputs().iter().map(|f| f.ty).collect();
    assert_eq!(
        tys,
        vec![ValueType::AppId, ValueType::EnterpriseId, ValueType::Str, ValueType::TeamId]
    );
    let ep = endpoint_by_path("admin.analytics.getFile").unwrap();
    assert!(matches!(ep.inputs()[0].presence, Presence::Required));
    assert!(matches!(ep.inputs()[1].presence, Presence::Optional));
}

#[test]
fn marshal_limit_fifty() {
    let mut bag = ParamBag::new();
    bag.insert("limit", Value::U64(50));
    assert_eq!(wire(&marshal(&conversations_list(), &bag).unwrap()), vec![("limit", "50")]);
}

#[test]
fn marshal_string_for_flag_mismatch() {
    let mut bag = ParamBag::new();
    bag.insert("exclude_archived", Value::Str(s("true")));
    match marshal(&conversations_list(), &bag) {
        Err(MarshalError::TypeMismatch(n)) => assert_eq!(n, "exclude_archived"),
        other => panic!("unexpected {:?}", other),
    }
}

#[test]
fn marshal_empty_bag_missing_type() {
    let ep = endpoint_by_path("admin.analytics.getFile").unwrap();
    match marshal(&ep, &ParamBag::new()) {
        Err(MarshalError::MissingRequired(n)) => assert_eq!(n, "type"),
        other => panic!("unexpected {:?}", other),
    }
}

#[test]
fn endpoint_new_rejects_repeated_scope() {
    let scopes = vec![Scope::from_name("im:read"), Scope::from_name("im:read")];
    assert!(Endpoint::new("x", scopes, None, Vec::new(), Vec::new()).is_none());
}
