//! A JSON document as plain values, and lookup of an object's fields by name.
use vstd::prelude::*;
use crate::text::str_eq;

verus! {

/// A JSON value. Non-negative integers that fit in 64 bits are `UInt`; any
/// other number keeps its text in `Number`. An object keeps its members in
/// order.
#[derive(Debug)]
pub enum Json {
    Null,
    Bool(bool),
    UInt(u64),
    Number(String),
    Str(String),
    Array(Vec<Json>),
    Object(Vec<(String, Json)>),
}

/// `i` is the first position of `fs` whose name is `k`.
pub open spec fn is_first<V>(fs: Seq<(String, V)>, k: Seq<char>, i: int) -> bool {
    &&& 0 <= i < fs.len()
    &&& fs[i].0@ == k
    &&& forall|j: int| 0 <= j < i ==> fs[j].0@ != k
}

/// The first position of `fs` whose name is `k`, if any.
pub open spec fn first_index<V>(fs: Seq<(String, V)>, k: Seq<char>) -> Option<int> {
    if exists|i: int| is_first(fs, k, i) {
        Some(choose|i: int| is_first(fs, k, i))
    } else {
        None
    }
}

/// The value under name `k` (its first occurrence), if any.
pub open spec fn field<V>(fs: Seq<(String, V)>, k: Seq<char>) -> Option<V> {
    match first_index(fs, k) {
        Some(i) => Some(fs[i].1),
        None => None,
    }
}

pub proof fn lemma_first_unique<V>(fs: Seq<(String, V)>, k: Seq<char>, i: int)
    requires
        is_first(fs, k, i),
    ensures
        first_index(fs, k) == Some(i),
{
    let c = choose|c: int| is_first(fs, k, c);
    assert(is_first(fs, k, c));
    if c < i {
        assert(fs[c].0@ != k);
    }
    if i < c {
        assert(fs[i].0@ != k);
    }
}

pub proof fn lemma_no_first<V>(fs: Seq<(String, V)>, k: Seq<char>)
    requires
        forall|j: int| 0 <= j < fs.len() ==> fs[j].0@ != k,
    ensures
        first_index(fs, k) is None,
{
}

/// The first position of `fs` whose name is `k`.
pub fn find_field<V>(fs: &Vec<(String, V)>, k: &str) -> (r: Option<usize>)
    ensures
        r matches Some(i) ==> first_index(fs@, k@) == Some(i as int),
        r is None ==> first_index(fs@, k@) is None,
{
    let mut i: usize = 0;
    while i < fs.len()
        invariant
            i <= fs@.len(),
            forall|j: int| 0 <= j < i ==> fs@[j].0@ != k@,
        decreases fs@.len() - i,
    {
        if str_eq(fs[i].0.as_str(), k) {
            proof {
                lemma_first_unique(fs@, k@, i as int);
            }
            return Some(i);
        }
        i = i + 1;
    }
    proof {
        lemma_no_first(fs@, k@);
    }
    None
}

/// The value under name `k` of `fs` (its first occurrence), if any.
pub fn member<'a>(fs: &'a Vec<(String, Json)>, k: &str) -> (r: Option<&'a Json>)
    ensures
        match r {
            Some(j) => field(fs@, k@) == Some(*j),
            None => field(fs@, k@) is None,
        },
{
    match find_field(fs, k) {
        Some(i) => Some(&fs[i].1),
        None => None,
    }
}

/// Every name in `fs` is `a` or `b` or `c`.
pub open spec fn names_within<V>(fs: Seq<(String, V)>, a: Seq<char>, b: Seq<char>, c: Seq<char>) -> bool {
    forall|i: int| 0 <= i < fs.len() ==> (fs[i].0@ == a || fs[i].0@ == b || fs[i].0@ == c)
}

/// Whether every name in `fs` is `a` or `b` or `c`.
pub fn only_names<V>(fs: &Vec<(String, V)>, a: &str, b: &str, c: &str) -> (r: bool)
    ensures
        r == names_within(fs@, a@, b@, c@),
{
    let mut i: usize = 0;
    while i < fs.len()
        invariant
            i <= fs@.len(),
            forall|j: int|
                0 <= j < i ==> (#[trigger] fs@[j].0@ == a@ || fs@[j].0@ == b@ || fs@[j].0@ == c@),
        decreases fs@.len() - i,
    {
        let n = fs[i].0.as_str();
        if !(str_eq(n, a) || str_eq(n, b) || str_eq(n, c)) {
            return false;
        }
        i = i + 1;
    }
    true
}

} // verus!
