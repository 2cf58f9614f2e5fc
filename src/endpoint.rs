//! Endpoint descriptors: each remote operation's path, scopes, rate-limit
//! class and input and output fields, and the catalog of known endpoints.
use vstd::prelude::*;
use crate::scopes::{Scope, is_scope_name, scope_tokens};
use crate::text::str_eq;
use crate::types::RateLimit;
use crate::values::ValueType;

verus! {

/// When an input field must be supplied.
#[derive(Clone, Copy, Debug)]
pub enum Presence {
    Required,
    Optional,
    /// Required whenever the named parameter is supplied.
    RequiredWith(&'static str),
}

/// A declared input field.
#[derive(Clone, Copy, Debug)]
pub struct InputField {
    pub name: &'static str,
    pub ty: ValueType,
    pub presence: Presence,
}

/// A declared output field.
#[derive(Clone, Copy, Debug)]
pub struct OutputField {
    pub name: &'static str,
    pub ty: ValueType,
}

/// The names in a sequence of input fields are pairwise distinct.
pub open spec fn inputs_distinct(fs: Seq<InputField>) -> bool {
    forall|i: int, j: int| 0 <= i < j < fs.len() ==> fs[i].name@ != fs[j].name@
}

/// The names in a sequence of output fields are pairwise distinct.
pub open spec fn outputs_distinct(fs: Seq<OutputField>) -> bool {
    forall|i: int, j: int| 0 <= i < j < fs.len() ==> fs[i].name@ != fs[j].name@
}

/// The names of a sequence of scopes are pairwise distinct.
pub open spec fn scopes_distinct(ss: Seq<Scope>) -> bool {
    forall|i: int, j: int| 0 <= i < j < ss.len() ==> ss[i].spec_name() != ss[j].spec_name()
}

/// Every input field has a scalar type.
pub open spec fn inputs_scalar(fs: Seq<InputField>) -> bool {
    forall|i: int| 0 <= i < fs.len() ==> (#[trigger] fs[i]).ty.spec_is_scalar()
}

/// The declaration of one remote operation.
pub struct Endpoint {
    path: &'static str,
    scopes: Vec<Scope>,
    rate_limit: Option<RateLimit>,
    inputs: Vec<InputField>,
    outputs: Vec<OutputField>,
}

impl Endpoint {
    pub closed spec fn spec_path(&self) -> Seq<char> {
        self.path@
    }

    pub closed spec fn spec_inputs(&self) -> Seq<InputField> {
        self.inputs@
    }

    pub closed spec fn spec_outputs(&self) -> Seq<OutputField> {
        self.outputs@
    }

    pub closed spec fn spec_scopes(&self) -> Seq<Scope> {
        self.scopes@
    }

    pub closed spec fn spec_rate_limit(&self) -> Option<RateLimit> {
        self.rate_limit
    }

    /// Field names are unique on each side, and every input is a scalar.
    pub open spec fn wf(&self) -> bool {
        &&& inputs_distinct(self.spec_inputs())
        &&& outputs_distinct(self.spec_outputs())
        &&& inputs_scalar(self.spec_inputs())
        &&& scopes_distinct(self.spec_scopes())
    }

    /// A descriptor from its parts; `None` where a field name repeats on one
    /// side, a scope name repeats, or an input is not a scalar.
    pub fn new(
        path: &'static str,
        scopes: Vec<Scope>,
        rate_limit: Option<RateLimit>,
        inputs: Vec<InputField>,
        outputs: Vec<OutputField>,
    ) -> (r: Option<Endpoint>)
        ensures
            r is Some <==> (inputs_distinct(inputs@) && outputs_distinct(outputs@) && inputs_scalar(
                inputs@,
            ) && scopes_distinct(scopes@)),
            r matches Some(e) ==> {
                &&& e.spec_path() == path@
                &&& e.spec_scopes() == scopes@
                &&& e.spec_rate_limit() == rate_limit
                &&& e.spec_inputs() == inputs@
                &&& e.spec_outputs() == outputs@
            },
    {
        let mut i: usize = 0;
        while i < inputs.len()
            invariant
                i <= inputs@.len(),
                forall|a: int, b: int| 0 <= a < b < inputs@.len() && a < i ==> inputs@[a].name@ != inputs@[b].name@,
                forall|a: int| 0 <= a < i ==> (#[trigger] inputs@[a]).ty.spec_is_scalar(),
            decreases inputs@.len() - i,
        {
            if !inputs[i].ty.is_scalar() {
                return None;
            }
            let mut j: usize = i + 1;
            while j < inputs.len()
                invariant
                    i < inputs@.len(),
                    i + 1 <= j <= inputs@.len(),
                    forall|b: int| i < b < j ==> inputs@[i as int].name@ != #[trigger] inputs@[b].name@,
                decreases inputs@.len() - j,
            {
                if str_eq(inputs[i].name, inputs[j].name) {
                    return None;
                }
                j = j + 1;
            }
            i = i + 1;
        }
        let mut i: usize = 0;
        while i < outputs.len()
            invariant
                i <= outputs@.len(),
                forall|a: int, b: int| 0 <= a < b < outputs@.len() && a < i ==> outputs@[a].name@ != outputs@[b].name@,
            decreases outputs@.len() - i,
        {
            let mut j: usize = i + 1;
            while j < outputs.len()
                invariant
                    i < outputs@.len(),
                    i + 1 <= j <= outputs@.len(),
                    forall|b: int| i < b < j ==> outputs@[i as int].name@ != #[trigger] outputs@[b].name@,
                decreases outputs@.len() - j,
            {
                if str_eq(outputs[i].name, outputs[j].name) {
                    return None;
                }
                j = j + 1;
            }
            i = i + 1;
        }
        let mut i: usize = 0;
        while i < scopes.len()
            invariant
                i <= scopes@.len(),
                forall|a: int, b: int| 0 <= a < b < scopes@.len() && a < i ==> scopes@[a].spec_name() != scopes@[b].spec_name(),
            decreases scopes@.len() - i,
        {
            let mut j: usize = i + 1;
            while j < scopes.len()
                invariant
                    i < scopes@.len(),
                    i + 1 <= j <= scopes@.len(),
                    forall|b: int| i < b < j ==> scopes@[i as int].spec_name() != #[trigger] scopes@[b].spec_name(),
                decreases scopes@.len() - j,
            {
                if str_eq(scopes[i].name(), scopes[j].name()) {
                    return None;
                }
                j = j + 1;
            }
            i = i + 1;
        }
        Some(Endpoint { path, scopes, rate_limit, inputs, outputs })
    }

    /// The wire route of this endpoint.
    pub fn api_str(&self) -> (r: &'static str)
        ensures
            r@ == self.spec_path(),
    {
        self.path
    }

    /// The scopes needed to call this endpoint.
    pub fn required_scopes(&self) -> (r: &[Scope])
        ensures
            r@ == self.spec_scopes(),
    {
        self.scopes.as_slice()
    }

    /// The rate-limit class of this endpoint, if it has one.
    pub fn rate_limit(&self) -> (r: Option<RateLimit>)
        ensures
            r == self.spec_rate_limit(),
    {
        self.rate_limit
    }

    pub fn inputs(&self) -> (r: &[InputField])
        ensures
            r@ == self.spec_inputs(),
    {
        self.inputs.as_slice()
    }

    pub fn outputs(&self) -> (r: &[OutputField])
        ensures
            r@ == self.spec_outputs(),
    {
        self.outputs.as_slice()
    }
}

} // verus!

verus! {

/// Whether `path` names an endpoint of the catalog.
pub open spec fn is_endpoint_path(path: Seq<char>) -> bool {
    path == "admin.analytics.getFile"@ || path == "admin.apps.approve"@ || path
        == "conversations.list"@
}

/// Input field `f` is named `name`, has type `ty`, and is required exactly
/// when `required` (otherwise optional).
pub open spec fn input_is(f: InputField, name: Seq<char>, ty: ValueType, required: bool) -> bool {
    &&& f.name@ == name
    &&& f.ty == ty
    &&& if required {
        f.presence is Required
    } else {
        f.presence is Optional
    }
}

/// Output field `f` is named `name` and has type `ty`.
pub open spec fn output_is(f: OutputField, name: Seq<char>, ty: ValueType) -> bool {
    f.name@ == name && f.ty == ty
}

/// The names of a sequence of scopes.
pub open spec fn scope_names(ss: Seq<Scope>) -> Seq<Seq<char>> {
    ss.map_values(|s: Scope| s.spec_name())
}

/// Every scope carries the credential kinds the registry gives its name.
pub open spec fn scopes_registered(ss: Seq<Scope>) -> bool {
    forall|i: int|
        0 <= i < ss.len() ==> Some((#[trigger] ss[i]).spec_tokens()) == scope_tokens(
            ss[i].spec_name(),
        )
}

/// The descriptor of `admin.analytics.getFile`.
pub open spec fn is_admin_analytics_get_file(e: Endpoint) -> bool {
    &&& e.spec_path() == "admin.analytics.getFile"@
    &&& scope_names(e.spec_scopes()) == seq!["admin.analytics:read"@]
    &&& scopes_registered(e.spec_scopes())
    &&& e.spec_rate_limit() == Some(RateLimit::Tier2)
    &&& e.spec_inputs().len() == 3
    &&& input_is(e.spec_inputs()[0], "type"@, ValueType::Str, true)
    &&& input_is(e.spec_inputs()[1], "date"@, ValueType::Str, false)
    &&& input_is(e.spec_inputs()[2], "metadata_only"@, ValueType::Bool, false)
    &&& e.spec_outputs().len() == 0
}

/// The descriptor of `admin.apps.approve`.
pub open spec fn is_admin_apps_approve(e: Endpoint) -> bool {
    &&& e.spec_path() == "admin.apps.approve"@
    &&& scope_names(e.spec_scopes()) == seq!["admin.apps:write"@]
    &&& scopes_registered(e.spec_scopes())
    &&& e.spec_rate_limit() == Some(RateLimit::Tier2)
    &&& e.spec_inputs().len() == 4
    &&& input_is(e.spec_inputs()[0], "app_id"@, ValueType::AppId, false)
    &&& input_is(e.spec_inputs()[1], "enterprise_id"@, ValueType::EnterpriseId, false)
    &&& input_is(e.spec_inputs()[2], "request_id"@, ValueType::Str, false)
    &&& input_is(e.spec_inputs()[3], "team_id"@, ValueType::TeamId, false)
    &&& e.spec_outputs().len() == 0
}

/// The descriptor of `conversations.list`.
pub open spec fn is_conversations_list(e: Endpoint) -> bool {
    &&& e.spec_path() == "conversations.list"@
    &&& scope_names(e.spec_scopes()) == seq![
        "channels:read"@,
        "groups:read"@,
        "im:read"@,
        "mpim:read"@,
    ]
    &&& scopes_registered(e.spec_scopes())
    &&& e.spec_rate_limit() == Some(RateLimit::Tier2)
    &&& e.spec_inputs().len() == 5
    &&& input_is(e.spec_inputs()[0], "cursor"@, ValueType::Str, false)
    &&& input_is(e.spec_inputs()[1], "exclude_archived"@, ValueType::Bool, false)
    &&& input_is(e.spec_inputs()[2], "limit"@, ValueType::U64, false)
    &&& input_is(e.spec_inputs()[3], "team_id"@, ValueType::TeamId, false)
    &&& input_is(e.spec_inputs()[4], "types"@, ValueType::Str, false)
    &&& e.spec_outputs().len() == 2
    &&& output_is(e.spec_outputs()[0], "channels"@, ValueType::Conversations)
    &&& output_is(e.spec_outputs()[1], "response_metadata"@, ValueType::Meta)
}

fn scope_list(names: &Vec<&'static str>) -> (r: Vec<Scope>)
    requires
        forall|i: int| 0 <= i < names@.len() ==> is_scope_name(#[trigger] names@[i]@),
    ensures
        scope_names(r@) == names@.map_values(|n: &'static str| n@),
        scopes_registered(r@),
{
    let mut r: Vec<Scope> = Vec::new();
    let mut i: usize = 0;
    while i < names.len()
        invariant
            i <= names@.len(),
            r@.len() == i,
            forall|k: int| 0 <= k < names@.len() ==> is_scope_name(#[trigger] names@[k]@),
            forall|k: int| 0 <= k < i ==> (#[trigger] r@[k]).spec_name() == names@[k]@,
            scopes_registered(r@),
        decreases names@.len() - i,
    {
        let s = Scope::from_name(names[i]);
        let ghost before = r@;
        r.push(s);
        assert forall|k: int| 0 <= k < r@.len() implies Some((#[trigger] r@[k]).spec_tokens())
            == scope_tokens(r@[k].spec_name()) by {
            if k < i {
                assert(r@[k] == before[k]);
            }
        }
        i = i + 1;
    }
    assert(scope_names(r@) =~= names@.map_values(|n: &'static str| n@));
    r
}

/// The descriptor of the endpoint at `path`, if the catalog has one. Each
/// descriptor is given in full: path, scopes, rate-limit class, and the name,
/// type and presence of each field.
pub fn endpoint_by_path(path: &str) -> (r: Option<Endpoint>)
    ensures
        r is Some <==> is_endpoint_path(path@),
        r matches Some(e) ==> e.wf(),
        path@ == "admin.analytics.getFile"@ ==> (r matches Some(e)
            && is_admin_analytics_get_file(e)),
        path@ == "admin.apps.approve"@ ==> (r matches Some(e) && is_admin_apps_approve(e)),
        path@ == "conversations.list"@ ==> (r matches Some(e) && is_conversations_list(e)),
{
    proof {
        reveal_strlit("admin.analytics.getFile");
        reveal_strlit("admin.apps.approve");
        reveal_strlit("conversations.list");
        assert("admin.analytics.getFile"@.len() != "conversations.list"@.len());
        assert("admin.analytics.getFile"@.len() != "admin.apps.approve"@.len());
        assert("admin.apps.approve"@[0] != "conversations.list"@[0]);
    }
    if str_eq(path, "admin.analytics.getFile") {
        Some(admin_analytics_get_file())
    } else if str_eq(path, "admin.apps.approve") {
        Some(admin_apps_approve())
    } else if str_eq(path, "conversations.list") {
        Some(conversations_list())
    } else {
        None
    }
}

fn admin_analytics_get_file() -> (e: Endpoint)
    ensures
        e.wf(),
        is_admin_analytics_get_file(e),
{
    let mut names = Vec::new();
    names.push("admin.analytics:read");
    let mut inputs = Vec::new();
    inputs.push(InputField { name: "type", ty: ValueType::Str, presence: Presence::Required });
    inputs.push(InputField { name: "date", ty: ValueType::Str, presence: Presence::Optional });
    inputs.push(
        InputField { name: "metadata_only", ty: ValueType::Bool, presence: Presence::Optional },
    );
    proof {
        reveal_strlit("type");
        reveal_strlit("date");
        reveal_strlit("metadata_only");
        assert("type"@[0] != "date"@[0]);
        assert("type"@.len() != "metadata_only"@.len());
        assert("date"@.len() != "metadata_only"@.len());
    }
    let scopes = scope_list(&names);
    assert(scope_names(scopes@) =~= seq!["admin.analytics:read"@]);
    Endpoint {
        path: "admin.analytics.getFile",
        scopes,
        rate_limit: Some(RateLimit::Tier2),
        inputs,
        outputs: Vec::new(),
    }
}

fn admin_apps_approve() -> (e: Endpoint)
    ensures
        e.wf(),
        is_admin_apps_approve(e),
{
    let mut names = Vec::new();
    names.push("admin.apps:write");
    let mut inputs = Vec::new();
    inputs.push(InputField { name: "app_id", ty: ValueType::AppId, presence: Presence::Optional });
    inputs.push(
        InputField {
            name: "enterprise_id",
            ty: ValueType::EnterpriseId,
            presence: Presence::Optional,
        },
    );
    inputs.push(
        InputField { name: "request_id", ty: ValueType::Str, presence: Presence::Optional },
    );
    inputs.push(InputField { name: "team_id", ty: ValueType::TeamId, presence: Presence::Optional });
    proof {
        reveal_strlit("app_id");
        reveal_strlit("enterprise_id");
        reveal_strlit("request_id");
        reveal_strlit("team_id");
        assert("app_id"@.len() != "enterprise_id"@.len());
        assert("app_id"@.len() != "request_id"@.len());
        assert("app_id"@.len() != "team_id"@.len());
        assert("enterprise_id"@.len() != "request_id"@.len());
        assert("enterprise_id"@.len() != "team_id"@.len());
        assert("request_id"@.len() != "team_id"@.len());
    }
    let scopes = scope_list(&names);
    assert(scope_names(scopes@) =~= seq!["admin.apps:write"@]);
    Endpoint {
        path: "admin.apps.approve",
        scopes,
        rate_limit: Some(RateLimit::Tier2),
        inputs,
        outputs: Vec::new(),
    }
}

fn conversations_list() -> (e: Endpoint)
    ensures
        e.wf(),
        is_conversations_list(e),
{
    let mut names = Vec::new();
    names.push("channels:read");
    names.push("groups:read");
    names.push("im:read");
    names.push("mpim:read");
    let mut inputs = Vec::new();
    inputs.push(InputField { name: "cursor", ty: ValueType::Str, presence: Presence::Optional });
    inputs.push(
        InputField { name: "exclude_archived", ty: ValueType::Bool, presence: Presence::Optional },
    );
    inputs.push(InputField { name: "limit", ty: ValueType::U64, presence: Presence::Optional });
    inputs.push(InputField { name: "team_id", ty: ValueType::TeamId, presence: Presence::Optional });
    inputs.push(InputField { name: "types", ty: ValueType::Str, presence: Presence::Optional });
    let mut outputs = Vec::new();
    outputs.push(OutputField { name: "channels", ty: ValueType::Conversations });
    outputs.push(OutputField { name: "response_metadata", ty: ValueType::Meta });
    proof {
        reveal_strlit("cursor");
        reveal_strlit("exclude_archived");
        reveal_strlit("limit");
        reveal_strlit("team_id");
        reveal_strlit("types");
        reveal_strlit("channels");
        reveal_strlit("response_metadata");
        reveal_strlit("channels:read");
        reveal_strlit("groups:read");
        reveal_strlit("im:read");
        reveal_strlit("mpim:read");
        assert("cursor"@.len() != "exclude_archived"@.len());
        assert("cursor"@.len() != "limit"@.len());
        assert("cursor"@.len() != "team_id"@.len());
        assert("cursor"@.len() != "types"@.len());
        assert("exclude_archived"@.len() != "limit"@.len());
        assert("exclude_archived"@.len() != "team_id"@.len());
        assert("exclude_archived"@.len() != "types"@.len());
        assert("limit"@.len() != "team_id"@.len());
        assert("limit"@[0] != "types"@[0]);
        assert("team_id"@.len() != "types"@.len());
        assert("channels"@.len() != "response_metadata"@.len());
        assert("channels:read"@.len() != "groups:read"@.len());
        assert("channels:read"@.len() != "im:read"@.len());
        assert("channels:read"@.len() != "mpim:read"@.len());
        assert("groups:read"@.len() != "im:read"@.len());
        assert("groups:read"@.len() != "mpim:read"@.len());
        assert("im:read"@.len() != "mpim:read"@.len());
    }
    let scopes = scope_list(&names);
    assert(scope_names(scopes@) =~= seq![
        "channels:read"@,
        "groups:read"@,
        "im:read"@,
        "mpim:read"@,
    ]);
    Endpoint {
        path: "conversations.list",
        scopes,
        rate_limit: Some(RateLimit::Tier2),
        inputs,
        outputs,
    }
}

} // verus!
