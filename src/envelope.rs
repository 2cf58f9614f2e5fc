//! The response envelope and its decoding into typed results or errors.
use vstd::prelude::*;
use crate::endpoint::{Endpoint, OutputField};
use crate::json::{field, find_field, first_index, lemma_first_unique, member, Json};
use crate::text::{split_on, str_eq, views};
use crate::types::{errors_of, warnings_of, Error, SlackResponse, Warning};
use crate::values::{decode_model, Value, ValueModel};

verus! {

/// A response before its payload is decoded: the success flag, the optional
/// comma-joined warning and error codes, and every other member in order.
#[derive(Debug)]
pub struct Envelope {
    pub ok: bool,
    pub warnings: Option<String>,
    pub error: Option<String>,
    pub other: Vec<(String, Json)>,
}

/// Why a response could not be decoded into a result.
#[derive(Debug)]
pub enum DecodeError {
    /// The response is not an object with a boolean `ok`, or a code member is
    /// not a string, or a failure carries no error.
    MalformedEnvelope,
    /// The service rejected the call.
    ApiError(Vec<Error>),
    UnknownErrorCode(String),
    UnknownWarningCode(String),
    /// A declared output member is absent.
    MissingField(String),
    /// A declared output member does not have its declared type.
    FieldDecodeError(String),
    /// Members that no output declares, in order.
    LeftoverFields(Vec<String>),
}

/// A `DecodeError` as plain sequences.
pub enum DecodeErrorModel {
    MalformedEnvelope,
    ApiError(Seq<Error>),
    UnknownErrorCode(Seq<char>),
    UnknownWarningCode(Seq<char>),
    MissingField(Seq<char>),
    FieldDecodeError(Seq<char>),
    LeftoverFields(Seq<Seq<char>>),
}

impl DecodeError {
    pub open spec fn model(&self) -> DecodeErrorModel {
        match self {
            DecodeError::MalformedEnvelope => DecodeErrorModel::MalformedEnvelope,
            DecodeError::ApiError(es) => DecodeErrorModel::ApiError(es@),
            DecodeError::UnknownErrorCode(c) => DecodeErrorModel::UnknownErrorCode(c@),
            DecodeError::UnknownWarningCode(c) => DecodeErrorModel::UnknownWarningCode(c@),
            DecodeError::MissingField(n) => DecodeErrorModel::MissingField(n@),
            DecodeError::FieldDecodeError(n) => DecodeErrorModel::FieldDecodeError(n@),
            DecodeError::LeftoverFields(ns) => DecodeErrorModel::LeftoverFields(views(ns@)),
        }
    }
}

pub open spec fn opt_view(o: Option<String>) -> Option<Seq<char>> {
    match o {
        Some(s) => Some(s@),
        None => None,
    }
}

/// The names of a sequence of members.
pub open spec fn names_of(fs: Seq<(String, Json)>) -> Seq<Seq<char>> {
    fs.map_values(|e: (String, Json)| e.0@)
}

/// The models of a sequence of values.
pub open spec fn models(vs: Seq<Value>) -> Seq<ValueModel> {
    vs.map_values(|v: Value| v.model())
}

/// Names the envelope itself uses.
pub open spec fn is_envelope_name(k: Seq<char>) -> bool {
    k == "ok"@ || k == "warnings"@ || k == "error"@
}

/// The members of `fs` other than the envelope's own, in order.
pub open spec fn payload(fs: Seq<(String, Json)>) -> Seq<(String, Json)>
    decreases fs.len(),
{
    if fs.len() == 0 {
        fs
    } else if is_envelope_name(fs.last().0@) {
        payload(fs.drop_last())
    } else {
        payload(fs.drop_last()).push(fs.last())
    }
}

/// An optional code member: absent or null is no codes, a string is its text,
/// anything else is malformed.
pub open spec fn code_member(j: Option<Json>) -> Option<Option<Seq<char>>> {
    match j {
        None => Some(None),
        Some(Json::Null) => Some(None),
        Some(Json::Str(s)) => Some(Some(s@)),
        _ => None,
    }
}

/// Whether `j` has the envelope's shape.
pub open spec fn is_envelope(j: Json) -> bool {
    match j {
        Json::Object(fs) => {
            &&& field(fs@, "ok"@) matches Some(Json::Bool(_))
            &&& code_member(field(fs@, "warnings"@)) is Some
            &&& code_member(field(fs@, "error"@)) is Some
        },
        _ => false,
    }
}

fn code_in(j: Option<&Json>) -> (r: Result<Option<String>, ()>)
    ensures
        match r {
            Ok(o) => code_member(match j {
                Some(x) => Some(*x),
                None => None,
            }) == Some(opt_view(o)),
            Err(_) => code_member(match j {
                Some(x) => Some(*x),
                None => None,
            }) is None,
        },
{
    match j {
        None => Ok(None),
        Some(Json::Null) => Ok(None),
        Some(Json::Str(s)) => Ok(Some(s.clone())),
        _ => Err(()),
    }
}

impl Envelope {
    /// Reads the envelope out of a parsed response.
    pub fn from_json(j: Json) -> (r: Result<Envelope, DecodeError>)
        ensures
            r is Ok <==> is_envelope(j),
            r matches Err(e) ==> e is MalformedEnvelope,
            r matches Ok(e) ==> j matches Json::Object(fs) && {
                &&& field(fs@, "ok"@) == Some(Json::Bool(e.ok))
                &&& code_member(field(fs@, "warnings"@)) == Some(opt_view(e.warnings))
                &&& code_member(field(fs@, "error"@)) == Some(opt_view(e.error))
                &&& e.other@ == payload(fs@)
            },
    {
        match j {
            Json::Object(fs) => {
                let ok = match member(&fs, "ok") {
                    Some(Json::Bool(b)) => *b,
                    _ => {
                        return Err(DecodeError::MalformedEnvelope);
                    },
                };
                let warnings = match code_in(member(&fs, "warnings")) {
                    Ok(w) => w,
                    Err(_) => {
                        return Err(DecodeError::MalformedEnvelope);
                    },
                };
                let error = match code_in(member(&fs, "error")) {
                    Ok(e) => e,
                    Err(_) => {
                        return Err(DecodeError::MalformedEnvelope);
                    },
                };
                let ghost orig = fs@;
                let mut rest = fs;
                let mut other: Vec<(String, Json)> = Vec::new();
                let n = rest.len();
                let mut k: usize = 0;
                assert(orig.subrange(0, 0) =~= Seq::<(String, Json)>::empty());
                while rest.len() > 0
                    invariant
                        n == orig.len(),
                        k <= n,
                        rest@.len() == n - k,
                        rest@ == orig.subrange(k as int, n as int),
                        other@ == payload(orig.subrange(0, k as int)),
                    decreases rest@.len(),
                {
                    let e = rest.remove(0);
                    proof {
                        assert(e == orig[k as int]);
                        assert(orig.subrange(0, k + 1).drop_last() =~= orig.subrange(0, k as int));
                        assert(rest@ =~= orig.subrange(k + 1, n as int));
                    }
                    let own = str_eq(e.0.as_str(), "ok") || str_eq(e.0.as_str(), "warnings")
                        || str_eq(e.0.as_str(), "error");
                    if !own {
                        other.push(e);
                    }
                    k = k + 1;
                }
                assert(orig.subrange(0, n as int) =~= orig);
                Ok(Envelope { ok, warnings, error, other })
            },
            _ => Err(DecodeError::MalformedEnvelope),
        }
    }
}


/// Decodes the first `n` declared outputs from `other`, each taken out of it
/// by name: the decoded models and what is left, or the first failure.
pub open spec fn decode_fields(outs: Seq<OutputField>, other: Seq<(String, Json)>, n: int) -> Result<
    (Seq<ValueModel>, Seq<(String, Json)>),
    DecodeErrorModel,
>
    decreases n,
{
    if n <= 0 {
        Ok((Seq::empty(), other))
    } else {
        match decode_fields(outs, other, n - 1) {
            Err(e) => Err(e),
            Ok((vs, rest)) => {
                let g = outs[n - 1];
                match first_index(rest, g.name@) {
                    None => Err(DecodeErrorModel::MissingField(g.name@)),
                    Some(i) => match decode_model(g.ty, rest[i].1) {
                        None => Err(DecodeErrorModel::FieldDecodeError(g.name@)),
                        Some(v) => Ok((vs.push(v), rest.remove(i))),
                    },
                }
            },
        }
    }
}

/// What decoding an envelope yields under output fields `outs`: on failure the
/// error codes; on success the declared outputs in order, an error where any
/// member is left over, then the warning codes.
pub open spec fn decode_spec(
    outs: Seq<OutputField>,
    ok: bool,
    warnings: Option<Seq<char>>,
    error: Option<Seq<char>>,
    other: Seq<(String, Json)>,
) -> Result<(Seq<ValueModel>, Option<Seq<Warning>>), DecodeErrorModel> {
    if !ok {
        match error {
            None => Err(DecodeErrorModel::MalformedEnvelope),
            Some(e) => match errors_of(split_on(e, ',')) {
                Ok(es) => Err(DecodeErrorModel::ApiError(es)),
                Err(c) => Err(DecodeErrorModel::UnknownErrorCode(c)),
            },
        }
    } else {
        match decode_fields(outs, other, outs.len() as int) {
            Err(e) => Err(e),
            Ok((vs, rest)) => if rest.len() > 0 {
                Err(DecodeErrorModel::LeftoverFields(names_of(rest)))
            } else {
                match warnings {
                    None => Ok((vs, None)),
                    Some(w) => match warnings_of(split_on(w, ',')) {
                        Ok(ws) => Ok((vs, Some(ws))),
                        Err(c) => Err(DecodeErrorModel::UnknownWarningCode(c)),
                    },
                }
            },
        }
    }
}

/// A decoded response as plain sequences.
pub open spec fn response_model(r: SlackResponse<Vec<Value>>) -> (Seq<ValueModel>, Option<Seq<Warning>>) {
    (
        models(r.data@),
        match r.warnings {
            Some(w) => Some(w@),
            None => None,
        },
    )
}

/// Once the first `k` outputs fail, all of them fail the same way.
pub proof fn lemma_fields_err(outs: Seq<OutputField>, other: Seq<(String, Json)>, k: int)
    requires
        0 <= k <= outs.len(),
        decode_fields(outs, other, k) is Err,
    ensures
        decode_fields(outs, other, outs.len() as int) == decode_fields(outs, other, k),
    decreases outs.len() - k,
{
    if k < outs.len() {
        lemma_fields_err(outs, other, k + 1);
    }
}

/// Decodes an envelope under `ep`'s output fields.
pub fn decode(ep: &Endpoint, env: Envelope) -> (r: Result<SlackResponse<Vec<Value>>, DecodeError>)
    ensures
        match r {
            Ok(resp) => decode_spec(
                ep.spec_outputs(),
                env.ok,
                opt_view(env.warnings),
                opt_view(env.error),
                env.other@,
            ) == Ok::<(Seq<ValueModel>, Option<Seq<Warning>>), DecodeErrorModel>(
                response_model(resp),
            ),
            Err(e) => decode_spec(
                ep.spec_outputs(),
                env.ok,
                opt_view(env.warnings),
                opt_view(env.error),
                env.other@,
            ) == Err::<(Seq<ValueModel>, Option<Seq<Warning>>), DecodeErrorModel>(e.model()),
        },
{
    let Envelope { ok, warnings, error, other } = env;
    if !ok {
        return match error {
            None => Err(DecodeError::MalformedEnvelope),
            Some(e) => match Error::from_codes(e.as_str()) {
                Ok(es) => Err(DecodeError::ApiError(es)),
                Err(c) => Err(DecodeError::UnknownErrorCode(c)),
            },
        };
    }
    let outs = ep.outputs();
    let ghost oseq = ep.spec_outputs();
    let ghost orig = other@;
    let mut rest = other;
    let mut data: Vec<Value> = Vec::new();
    let mut i: usize = 0;
    assert(models(data@) =~= Seq::<ValueModel>::empty());
    while i < outs.len()
        invariant
            outs@ == oseq,
            oseq == ep.spec_outputs(),
            ok == env.ok,
            ok,
            orig == env.other@,
            opt_view(warnings) == opt_view(env.warnings),
            i <= oseq.len(),
            decode_fields(oseq, orig, i as int) == Ok::<
                (Seq<ValueModel>, Seq<(String, Json)>),
                DecodeErrorModel,
            >((models(data@), rest@)),
        decreases oseq.len() - i,
    {
        let g = outs[i];
        match find_field(&rest, g.name) {
            None => {
                proof {
                    lemma_fields_err(oseq, orig, i as int + 1);
                }
                return Err(DecodeError::MissingField(g.name.to_owned()));
            },
            Some(k) => {
                let (_, jv) = rest.remove(k);
                match Value::from_json(g.ty, jv) {
                    None => {
                        proof {
                            lemma_fields_err(oseq, orig, i as int + 1);
                        }
                        return Err(DecodeError::FieldDecodeError(g.name.to_owned()));
                    },
                    Some(v) => {
                        let ghost before = data@;
                        data.push(v);
                        assert(models(data@) =~= models(before).push(v.model()));
                    },
                }
            },
        }
        i = i + 1;
    }
    if rest.len() > 0 {
        let mut names: Vec<String> = Vec::new();
        let mut j: usize = 0;
        while j < rest.len()
            invariant
                j <= rest@.len(),
                views(names@) == names_of(rest@.subrange(0, j as int)),
            decreases rest@.len() - j,
        {
            let ghost before = names@;
            names.push(rest[j].0.clone());
            assert(rest@.subrange(0, j + 1) =~= rest@.subrange(0, j as int).push(rest@[j as int]));
            assert(views(names@) =~= views(before).push(rest@[j as int].0@));
            assert(names_of(rest@.subrange(0, j + 1)) =~= names_of(rest@.subrange(0, j as int)).push(rest@[j as int].0@));
            j = j + 1;
        }
        assert(rest@.subrange(0, j as int) =~= rest@);
        return Err(DecodeError::LeftoverFields(names));
    }
    let warnings = match warnings {
        None => None,
        Some(w) => match Warning::from_codes(w.as_str()) {
            Ok(ws) => Some(ws),
            Err(c) => {
                return Err(DecodeError::UnknownWarningCode(c));
            },
        },
    };
    Ok(SlackResponse { data, warnings })
}


/// `fs` echoes exactly the declared outputs, in order: each member carries the
/// output's name and JSON that decodes to the corresponding model.
pub open spec fn echoes(outs: Seq<OutputField>, vals: Seq<ValueModel>, fs: Seq<(String, Json)>) -> bool {
    &&& fs.len() == outs.len()
    &&& vals.len() == outs.len()
    &&& forall|i: int|
        0 <= i < outs.len() ==> (#[trigger] fs[i]).0@ == outs[i].name@ && decode_model(
            outs[i].ty,
            fs[i].1,
        ) == Some(vals[i])
}

/// The members a server sends for `values` under `ep`'s outputs.
pub fn encode_outputs(ep: &Endpoint, values: Vec<Value>) -> (r: Vec<(String, Json)>)
    requires
        values@.len() == ep.spec_outputs().len(),
        forall|i: int|
            0 <= i < values@.len() ==> (#[trigger] values@[i]).spec_type()
                == ep.spec_outputs()[i].ty && values@[i].wf(),
    ensures
        echoes(ep.spec_outputs(), models(values@), r@),
{
    let outs = ep.outputs();
    let ghost orig = values@;
    let mut rest = values;
    let mut r: Vec<(String, Json)> = Vec::new();
    let mut i: usize = 0;
    while i < outs.len()
        invariant
            outs@ == ep.spec_outputs(),
            orig.len() == outs@.len(),
            forall|j: int|
                0 <= j < orig.len() ==> (#[trigger] orig[j]).spec_type() == outs@[j].ty
                    && orig[j].wf(),
            i <= outs@.len(),
            rest@ == orig.subrange(i as int, orig.len() as int),
            r@.len() == i,
            forall|j: int|
                0 <= j < i ==> (#[trigger] r@[j]).0@ == outs@[j].name@ && decode_model(
                    outs@[j].ty,
                    r@[j].1,
                ) == Some(orig[j].model()),
        decreases outs@.len() - i,
    {
        let v = rest.remove(0);
        assert(v == orig[i as int]);
        assert(rest@ =~= orig.subrange(i + 1, orig.len() as int));
        let j = v.to_json();
        r.push((outs[i].name.to_owned(), j));
        i = i + 1;
    }
    r
}

proof fn lemma_round_trip_upto(outs: Seq<OutputField>, vals: Seq<ValueModel>, fs: Seq<(String, Json)>, n: int)
    requires
        echoes(outs, vals, fs),
        0 <= n <= outs.len(),
    ensures
        decode_fields(outs, fs, n) == Ok::<(Seq<ValueModel>, Seq<(String, Json)>), DecodeErrorModel>(
            (vals.subrange(0, n), fs.subrange(n, fs.len() as int)),
        ),
    decreases n,
{
    if n == 0 {
        assert(vals.subrange(0, 0) =~= Seq::<ValueModel>::empty());
        assert(fs.subrange(0, fs.len() as int) =~= fs);
    } else {
        lemma_round_trip_upto(outs, vals, fs, n - 1);
        let rest = fs.subrange(n - 1, fs.len() as int);
        assert(rest[0] == fs[n - 1]);
        lemma_first_unique(rest, outs[n - 1].name@, 0);
        assert(rest.remove(0) =~= fs.subrange(n, fs.len() as int));
        assert(vals.subrange(0, n - 1).push(vals[n - 1]) =~= vals.subrange(0, n));
    }
}

/// A server that echoes exactly the declared outputs, with no warnings, is
/// decoded back to the values it echoed.
pub proof fn lemma_round_trip(outs: Seq<OutputField>, vals: Seq<ValueModel>, fs: Seq<(String, Json)>)
    requires
        echoes(outs, vals, fs),
    ensures
        decode_spec(outs, true, None, None, fs) == Ok::<
            (Seq<ValueModel>, Option<Seq<Warning>>),
            DecodeErrorModel,
        >((vals, None)),
{
    lemma_round_trip_upto(outs, vals, fs, outs.len() as int);
    assert(vals.subrange(0, outs.len() as int) =~= vals);
    assert(fs.subrange(outs.len() as int, fs.len() as int).len() == 0);
}

/// No declared output is named `k`.
pub open spec fn undeclared_output(outs: Seq<OutputField>, k: Seq<char>) -> bool {
    forall|i: int| 0 <= i < outs.len() ==> (#[trigger] outs[i]).name@ != k
}

proof fn lemma_member_stays(outs: Seq<OutputField>, other: Seq<(String, Json)>, e: (String, Json), n: int)
    requires
        0 <= n <= outs.len(),
        other.contains(e),
        undeclared_output(outs, e.0@),
        decode_fields(outs, other, n) is Ok,
    ensures
        decode_fields(outs, other, n)->Ok_0.1.contains(e),
    decreases n,
{
    if n > 0 {
        lemma_member_stays(outs, other, e, n - 1);
        let rest = decode_fields(outs, other, n - 1)->Ok_0.1;
        let i = first_index(rest, outs[n - 1].name@)->Some_0;
        let m = choose|m: int| 0 <= m < rest.len() && rest[m] == e;
        assert(outs[n - 1].name@ != e.0@);
        assert(m != i);
        if m < i {
            assert(rest.remove(i)[m] == e);
        } else {
            assert(rest.remove(i)[m - 1] == e);
        }
    }
}

/// A successful envelope holding a member that no output declares does not
/// decode; where the declared outputs themselves decode, the failure is the
/// leftover members.
pub proof fn lemma_leftover_fails(
    outs: Seq<OutputField>,
    warnings: Option<Seq<char>>,
    error: Option<Seq<char>>,
    other: Seq<(String, Json)>,
    j: int,
)
    requires
        0 <= j < other.len(),
        undeclared_output(outs, other[j].0@),
    ensures
        decode_spec(outs, true, warnings, error, other) is Err,
        decode_fields(outs, other, outs.len() as int) is Ok ==> decode_spec(
            outs,
            true,
            warnings,
            error,
            other,
        ) matches Err(DecodeErrorModel::LeftoverFields(_)),
{
    if decode_fields(outs, other, outs.len() as int) is Ok {
        assert(other[j] == other[j]);
        lemma_member_stays(outs, other, other[j], outs.len() as int);
    }
}

/// What decoding a parsed response yields under output fields `outs`.
pub open spec fn response_spec(outs: Seq<OutputField>, j: Json) -> Result<
    (Seq<ValueModel>, Option<Seq<Warning>>),
    DecodeErrorModel,
> {
    match j {
        Json::Object(fs) => if is_envelope(j) {
            decode_spec(
                outs,
                field(fs@, "ok"@)->Some_0->Bool_0,
                code_member(field(fs@, "warnings"@))->Some_0,
                code_member(field(fs@, "error"@))->Some_0,
                payload(fs@),
            )
        } else {
            Err(DecodeErrorModel::MalformedEnvelope)
        },
        _ => Err(DecodeErrorModel::MalformedEnvelope),
    }
}

/// Reads the envelope out of a parsed response and decodes it under `ep`.
pub fn decode_response(ep: &Endpoint, j: Json) -> (r: Result<SlackResponse<Vec<Value>>, DecodeError>)
    ensures
        match r {
            Ok(resp) => response_spec(ep.spec_outputs(), j) == Ok::<
                (Seq<ValueModel>, Option<Seq<Warning>>),
                DecodeErrorModel,
            >(response_model(resp)),
            Err(e) => response_spec(ep.spec_outputs(), j) == Err::<
                (Seq<ValueModel>, Option<Seq<Warning>>),
                DecodeErrorModel,
            >(e.model()),
        },
{
    match Envelope::from_json(j) {
        Ok(env) => decode(ep, env),
        Err(e) => Err(e),
    }
}

} // verus!
