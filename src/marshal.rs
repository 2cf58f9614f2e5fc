//! Parameter bags and their conversion to wire form under an endpoint's input
//! declarations.
use vstd::prelude::*;
use crate::endpoint::{Endpoint, InputField, Presence};
use crate::json::{field, find_field, first_index, lemma_first_unique};
use crate::text::str_eq;
use crate::values::{wire_text, Value};

verus! {

/// Named argument values supplied by a caller. A name appears at most once.
pub struct ParamBag {
    entries: Vec<(String, Value)>,
}

impl ParamBag {
    pub closed spec fn entries(&self) -> Seq<(String, Value)> {
        self.entries@
    }

    pub fn new() -> (r: ParamBag)
        ensures
            r.entries().len() == 0,
    {
        ParamBag { entries: Vec::new() }
    }

    /// Sets parameter `name` to `v`, replacing an earlier value under that name.
    pub fn insert(&mut self, name: &str, v: Value)
        ensures
            match first_index(old(self).entries(), name@) {
                Some(i) => {
                    &&& final(self).entries().len() == old(self).entries().len()
                    &&& final(self).entries()[i].0@ == name@
                    &&& final(self).entries()[i].1 == v
                    &&& forall|j: int|
                        0 <= j < old(self).entries().len() && j != i ==> final(self).entries()[j]
                            == old(self).entries()[j]
                },
                None => {
                    &&& final(self).entries().len() == old(self).entries().len() + 1
                    &&& final(self).entries().last().0@ == name@
                    &&& final(self).entries().last().1 == v
                    &&& forall|j: int|
                        0 <= j < old(self).entries().len() ==> final(self).entries()[j] == old(
                            self,
                        ).entries()[j]
                },
            },
    {
        match find_field(&self.entries, name) {
            Some(i) => {
                self.entries.remove(i);
                self.entries.insert(i, (name.to_owned(), v));
            },
            None => {
                self.entries.push((name.to_owned(), v));
            },
        }
    }

    /// The value supplied under `name`, if any.
    pub fn get(&self, name: &str) -> (r: Option<&Value>)
        ensures
            match r {
                Some(v) => field(self.entries(), name@) == Some(*v),
                None => field(self.entries(), name@) is None,
            },
    {
        match find_field(&self.entries, name) {
            Some(i) => Some(&self.entries[i].1),
            None => None,
        }
    }
}

/// Why a parameter bag could not be put in wire form.
#[derive(Debug)]
pub enum MarshalError {
    MissingRequired(String),
    TypeMismatch(String),
    UnknownParameter(String),
}

/// A `MarshalError` with the field name as characters.
pub enum MarshalErrorModel {
    MissingRequired(Seq<char>),
    TypeMismatch(Seq<char>),
    UnknownParameter(Seq<char>),
}

impl MarshalError {
    pub open spec fn model(&self) -> MarshalErrorModel {
        match self {
            MarshalError::MissingRequired(s) => MarshalErrorModel::MissingRequired(s@),
            MarshalError::TypeMismatch(s) => MarshalErrorModel::TypeMismatch(s@),
            MarshalError::UnknownParameter(s) => MarshalErrorModel::UnknownParameter(s@),
        }
    }
}

/// The wire form as pairs of characters.
pub open spec fn wire_view(w: Seq<(String, String)>) -> Seq<(Seq<char>, Seq<char>)> {
    w.map_values(|p: (String, String)| (p.0@, p.1@))
}

/// Whether a field with presence `p` must be supplied, given the bag.
pub open spec fn is_required(p: Presence, bag: Seq<(String, Value)>) -> bool {
    match p {
        Presence::Required => true,
        Presence::Optional => false,
        Presence::RequiredWith(other) => first_index(bag, other@) is Some,
    }
}

/// The wire form of the first `n` declared fields, or the first failure among them.
pub open spec fn marshal_upto(fs: Seq<InputField>, bag: Seq<(String, Value)>, n: int) -> Result<
    Seq<(Seq<char>, Seq<char>)>,
    MarshalErrorModel,
>
    decreases n,
{
    if n <= 0 {
        Ok(Seq::empty())
    } else {
        match marshal_upto(fs, bag, n - 1) {
            Err(e) => Err(e),
            Ok(w) => {
                let f = fs[n - 1];
                match field(bag, f.name@) {
                    Some(v) => if v.spec_type() == f.ty {
                        Ok(w.push((f.name@, wire_text(v.model()))))
                    } else {
                        Err(MarshalErrorModel::TypeMismatch(f.name@))
                    },
                    None => if is_required(f.presence, bag) {
                        Err(MarshalErrorModel::MissingRequired(f.name@))
                    } else {
                        Ok(w)
                    },
                }
            },
        }
    }
}

/// Some input field is named `k`.
pub open spec fn declared(fs: Seq<InputField>, k: Seq<char>) -> bool {
    exists|i: int| 0 <= i < fs.len() && (#[trigger] fs[i]).name@ == k
}

/// Position `j` of the bag holds the first name that no input field declares.
pub open spec fn is_first_undeclared(fs: Seq<InputField>, bag: Seq<(String, Value)>, j: int) -> bool {
    &&& 0 <= j < bag.len()
    &&& !declared(fs, bag[j].0@)
    &&& forall|k: int| 0 <= k < j ==> declared(fs, (#[trigger] bag[k]).0@)
}

/// The wire form of `bag` under input fields `fs`: the declared fields in
/// order, each checked and encoded, then no undeclared name in the bag.
pub open spec fn marshal_spec(fs: Seq<InputField>, bag: Seq<(String, Value)>) -> Result<
    Seq<(Seq<char>, Seq<char>)>,
    MarshalErrorModel,
> {
    match marshal_upto(fs, bag, fs.len() as int) {
        Err(e) => Err(e),
        Ok(w) => if exists|j: int| is_first_undeclared(fs, bag, j) {
            let j = choose|j: int| is_first_undeclared(fs, bag, j);
            Err(MarshalErrorModel::UnknownParameter(bag[j].0@))
        } else {
            Ok(w)
        },
    }
}

pub proof fn lemma_first_undeclared_unique(fs: Seq<InputField>, bag: Seq<(String, Value)>, j: int)
    requires
        is_first_undeclared(fs, bag, j),
    ensures
        (choose|c: int| is_first_undeclared(fs, bag, c)) == j,
{
    let c = choose|c: int| is_first_undeclared(fs, bag, c);
    assert(is_first_undeclared(fs, bag, c));
    if c < j {
        assert(declared(fs, bag[c].0@));
    }
    if j < c {
        assert(declared(fs, bag[j].0@));
    }
}

/// Whether some input field is named `k`.
fn is_declared(fs: &[InputField], k: &str) -> (r: bool)
    ensures
        r == declared(fs@, k@),
{
    let mut i: usize = 0;
    while i < fs.len()
        invariant
            i <= fs@.len(),
            forall|j: int| 0 <= j < i ==> (#[trigger] fs@[j]).name@ != k@,
        decreases fs@.len() - i,
    {
        if str_eq(fs[i].name, k) {
            assert(fs@[i as int].name@ == k@);
            return true;
        }
        i = i + 1;
    }
    false
}

/// Converts `bag` to wire form under `ep`'s input fields. Each declared field,
/// in order: a supplied value must have the declared type and is encoded; an
/// absent one is an error if it is required and is left out otherwise. A
/// supplied name that no field declares is then an error.
pub fn marshal(ep: &Endpoint, bag: &ParamBag) -> (r: Result<Vec<(String, String)>, MarshalError>)
    requires
        ep.wf(),
    ensures
        match r {
            Ok(w) => marshal_spec(ep.spec_inputs(), bag.entries()) == Ok::<
                Seq<(Seq<char>, Seq<char>)>,
                MarshalErrorModel,
            >(wire_view(w@)),
            Err(e) => marshal_spec(ep.spec_inputs(), bag.entries()) == Err::<
                Seq<(Seq<char>, Seq<char>)>,
                MarshalErrorModel,
            >(e.model()),
        },
{
    let fs = ep.inputs();
    let ghost fseq = ep.spec_inputs();
    let ghost b = bag.entries();
    let mut out: Vec<(String, String)> = Vec::new();
    let mut i: usize = 0;
    assert(wire_view(out@) =~= Seq::<(Seq<char>, Seq<char>)>::empty());
    while i < fs.len()
        invariant
            fs@ == fseq,
            fseq == ep.spec_inputs(),
            b == bag.entries(),
            ep.wf(),
            i <= fseq.len(),
            marshal_upto(fseq, b, i as int) == Ok::<
                Seq<(Seq<char>, Seq<char>)>,
                MarshalErrorModel,
            >(wire_view(out@)),
        decreases fseq.len() - i,
    {
        let f = fs[i];
        let ghost before = out@;
        match bag.get(f.name) {
            Some(v) => {
                if v.value_type() != f.ty {
                    proof {
                        lemma_upto_err(fseq, b, i as int + 1);
                    }
                    return Err(MarshalError::TypeMismatch(f.name.to_owned()));
                }
                assert(fseq[i as int].ty.spec_is_scalar());
                let t = v.wire_text();
                out.push((f.name.to_owned(), t));
                assert(wire_view(out@) =~= wire_view(before).push((f.name@, t@)));
            },
            None => {
                let required = match f.presence {
                    Presence::Required => true,
                    Presence::Optional => false,
                    Presence::RequiredWith(other) => bag.get(other).is_some(),
                };
                if required {
                    proof {
                        lemma_upto_err(fseq, b, i as int + 1);
                    }
                    return Err(MarshalError::MissingRequired(f.name.to_owned()));
                }
            },
        }
        i = i + 1;
    }
    let mut j: usize = 0;
    while j < bag.entries.len()
        invariant
            fs@ == fseq,
            fseq == ep.spec_inputs(),
            b == bag.entries(),
            j <= b.len(),
            marshal_upto(fseq, b, fseq.len() as int) == Ok::<
                Seq<(Seq<char>, Seq<char>)>,
                MarshalErrorModel,
            >(wire_view(out@)),
            forall|k: int| 0 <= k < j ==> declared(fseq, (#[trigger] b[k]).0@),
        decreases b.len() - j,
    {
        if !is_declared(fs, bag.entries[j].0.as_str()) {
            let name = bag.entries[j].0.clone();
            proof {
                assert(b[j as int].0@ == name@);
                assert(is_first_undeclared(fseq, b, j as int));
                lemma_first_undeclared_unique(fseq, b, j as int);
            }
            return Err(MarshalError::UnknownParameter(name));
        }
        j = j + 1;
    }
    Ok(out)
}

/// Once the first `k` fields fail, all of them fail the same way.
pub proof fn lemma_upto_err(fs: Seq<InputField>, bag: Seq<(String, Value)>, k: int)
    requires
        0 <= k <= fs.len(),
        marshal_upto(fs, bag, k) is Err,
    ensures
        marshal_upto(fs, bag, fs.len() as int) == marshal_upto(fs, bag, k),
    decreases fs.len() - k,
{
    if k < fs.len() {
        lemma_upto_err(fs, bag, k + 1);
    }
}


/// Field `f` is satisfied by the bag: a supplied value has the declared type,
/// and an absent field is not required.
pub open spec fn field_ok(f: InputField, bag: Seq<(String, Value)>) -> bool {
    match field(bag, f.name@) {
        Some(v) => v.spec_type() == f.ty,
        None => !is_required(f.presence, bag),
    }
}

/// Every declared field is satisfied and every supplied name is declared.
pub open spec fn bag_valid(fs: Seq<InputField>, bag: Seq<(String, Value)>) -> bool {
    &&& forall|i: int| 0 <= i < fs.len() ==> field_ok(#[trigger] fs[i], bag)
    &&& forall|j: int| 0 <= j < bag.len() ==> declared(fs, (#[trigger] bag[j]).0@)
}

/// Every entry of `w` is a declared field that the bag supplies, with the
/// wire text of the supplied value.
pub open spec fn entries_encoded(
    fs: Seq<InputField>,
    bag: Seq<(String, Value)>,
    w: Seq<(Seq<char>, Seq<char>)>,
) -> bool {
    forall|k: int|
        0 <= k < w.len() ==> declared(fs, (#[trigger] w[k]).0) && (field(bag, w[k].0) matches Some(
            v,
        ) && w[k].1 == wire_text(v.model()))
}

/// Every one of the first `n` declared fields that the bag supplies is in `w`.
pub open spec fn supplied_included(
    fs: Seq<InputField>,
    bag: Seq<(String, Value)>,
    w: Seq<(Seq<char>, Seq<char>)>,
    n: int,
) -> bool {
    forall|i: int|
        0 <= i < n && (#[trigger] fs[i]) == fs[i] && field(bag, fs[i].name@) is Some ==> exists|
            k: int,
        | 0 <= k < w.len() && (#[trigger] w[k]).0 == fs[i].name@
}

proof fn lemma_encoded_push(
    fs: Seq<InputField>,
    bag: Seq<(String, Value)>,
    w: Seq<(Seq<char>, Seq<char>)>,
    i: int,
)
    requires
        0 <= i < fs.len(),
        entries_encoded(fs, bag, w),
        field(bag, fs[i].name@) is Some,
    ensures
        entries_encoded(
            fs,
            bag,
            w.push((fs[i].name@, wire_text(field(bag, fs[i].name@)->Some_0.model()))),
        ),
{
    let w2 = w.push((fs[i].name@, wire_text(field(bag, fs[i].name@)->Some_0.model())));
    assert forall|k: int| 0 <= k < w2.len() implies declared(fs, (#[trigger] w2[k]).0) && (field(
        bag,
        w2[k].0,
    ) matches Some(v) && w2[k].1 == wire_text(v.model())) by {
        if k < w.len() {
            assert(w2[k] == w[k]);
        } else {
            assert(fs[i].name@ == w2[k].0);
        }
    }
}

proof fn lemma_included_push(
    fs: Seq<InputField>,
    bag: Seq<(String, Value)>,
    w: Seq<(Seq<char>, Seq<char>)>,
    n: int,
    e: (Seq<char>, Seq<char>),
)
    requires
        0 < n <= fs.len(),
        supplied_included(fs, bag, w, n - 1),
        e.0 == fs[n - 1].name@,
    ensures
        supplied_included(fs, bag, w.push(e), n),
{
    let w2 = w.push(e);
    assert forall|i: int|
        0 <= i < n && (#[trigger] fs[i]) == fs[i] && field(bag, fs[i].name@) is Some implies exists|
        k: int,
    | 0 <= k < w2.len() && (#[trigger] w2[k]).0 == fs[i].name@ by {
        if i < n - 1 {
            let k = choose|k: int| 0 <= k < w.len() && (#[trigger] w[k]).0 == fs[i].name@;
            assert(w2[k] == w[k]);
        } else {
            assert(w2[w.len() as int] == e);
        }
    }
}

proof fn lemma_included_skip(
    fs: Seq<InputField>,
    bag: Seq<(String, Value)>,
    w: Seq<(Seq<char>, Seq<char>)>,
    n: int,
)
    requires
        0 < n <= fs.len(),
        supplied_included(fs, bag, w, n - 1),
        field(bag, fs[n - 1].name@) is None,
    ensures
        supplied_included(fs, bag, w, n),
{
}

proof fn lemma_valid_upto(fs: Seq<InputField>, bag: Seq<(String, Value)>, n: int)
    requires
        0 <= n <= fs.len(),
        bag_valid(fs, bag),
    ensures
        marshal_upto(fs, bag, n) matches Ok(w) && entries_encoded(fs, bag, w)
            && supplied_included(fs, bag, w, n),
    decreases n,
{
    if n > 0 {
        lemma_valid_upto(fs, bag, n - 1);
        let w = marshal_upto(fs, bag, n - 1)->Ok_0;
        let f = fs[n - 1];
        assert(field_ok(fs[n - 1], bag));
        if field(bag, f.name@) is Some {
            lemma_encoded_push(fs, bag, w, n - 1);
            lemma_included_push(
                fs,
                bag,
                w,
                n,
                (f.name@, wire_text(field(bag, f.name@)->Some_0.model())),
            );
        } else {
            lemma_included_skip(fs, bag, w, n);
        }
    }
}

/// When every declared field is satisfied and every supplied name is
/// declared, marshalling succeeds, and the wire form holds exactly the
/// declared fields that the bag supplies, each with the wire text of its
/// value; every declared field that the bag lacks is left out.
pub proof fn lemma_marshal_valid(fs: Seq<InputField>, bag: Seq<(String, Value)>)
    requires
        bag_valid(fs, bag),
    ensures
        marshal_spec(fs, bag) matches Ok(w) && entries_encoded(fs, bag, w) && supplied_included(
            fs,
            bag,
            w,
            fs.len() as int,
        ),
{
    lemma_valid_upto(fs, bag, fs.len() as int);
    assert(!exists|j: int| is_first_undeclared(fs, bag, j));
}

proof fn lemma_prefix_ok(fs: Seq<InputField>, bag: Seq<(String, Value)>, n: int)
    requires
        0 <= n <= fs.len(),
        forall|j: int| 0 <= j < n ==> field_ok(#[trigger] fs[j], bag),
    ensures
        marshal_upto(fs, bag, n) is Ok,
    decreases n,
{
    if n > 0 {
        lemma_prefix_ok(fs, bag, n - 1);
        assert(field_ok(fs[n - 1], bag));
    }
}

/// Where declared field `i` is required and absent, and the fields before it
/// are satisfied, marshalling fails naming exactly that field.
pub proof fn lemma_marshal_missing(fs: Seq<InputField>, bag: Seq<(String, Value)>, i: int)
    requires
        0 <= i < fs.len(),
        field(bag, fs[i].name@) is None,
        is_required(fs[i].presence, bag),
        forall|j: int| 0 <= j < i ==> field_ok(#[trigger] fs[j], bag),
    ensures
        marshal_spec(fs, bag) == Err::<Seq<(Seq<char>, Seq<char>)>, MarshalErrorModel>(
            MarshalErrorModel::MissingRequired(fs[i].name@),
        ),
{
    lemma_prefix_ok(fs, bag, i);
    lemma_upto_err(fs, bag, i + 1);
}

/// Where declared field `i` is supplied with a value of another type, and the
/// fields before it are satisfied, marshalling fails naming exactly that field.
pub proof fn lemma_marshal_mismatch(fs: Seq<InputField>, bag: Seq<(String, Value)>, i: int)
    requires
        0 <= i < fs.len(),
        field(bag, fs[i].name@) matches Some(v) && v.spec_type() != fs[i].ty,
        forall|j: int| 0 <= j < i ==> field_ok(#[trigger] fs[j], bag),
    ensures
        marshal_spec(fs, bag) == Err::<Seq<(Seq<char>, Seq<char>)>, MarshalErrorModel>(
            MarshalErrorModel::TypeMismatch(fs[i].name@),
        ),
{
    lemma_prefix_ok(fs, bag, i);
    lemma_upto_err(fs, bag, i + 1);
}

} // verus!
