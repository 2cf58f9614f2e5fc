//! What the dispatcher computes before it hands a request to the transport.
use vstd::prelude::*;
use vstd::string::*;
use crate::endpoint::Endpoint;
use crate::types::Token;

verus! {

/// The prefix every request URL starts with.
pub open spec fn url_base() -> Seq<char> {
    "https://slack.com/api/"@
}

/// The URL a request to `ep` is sent to.
pub fn request_url(ep: &Endpoint) -> (r: String)
    ensures
        r@ == url_base() + ep.spec_path(),
{
    let base = String::from_str("https://slack.com/api/");
    base.concat(ep.api_str())
}

/// The value of the authorization header that carries `token`.
pub fn auth_header(token: &Token) -> (r: String)
    ensures
        r@ == "Bearer "@ + token.spec_raw(),
{
    let prefix = String::from_str("Bearer ");
    prefix.concat(token.as_str())
}

/// Whether `token` may hold every scope that `ep` requires.
pub fn token_may_call(ep: &Endpoint, token: &Token) -> (r: bool)
    ensures
        r == forall|i: int|
            0 <= i < ep.spec_scopes().len() ==> (#[trigger] ep.spec_scopes()[i]).spec_tokens().contains(
                token.spec_kind(),
            ),
{
    let scopes = ep.required_scopes();
    let kind = token.kind();
    let mut i: usize = 0;
    while i < scopes.len()
        invariant
            scopes@ == ep.spec_scopes(),
            kind == token.spec_kind(),
            i <= scopes@.len(),
            forall|j: int| 0 <= j < i ==> (#[trigger] scopes@[j]).spec_tokens().contains(kind),
        decreases scopes@.len() - i,
    {
        if !scopes[i].allows(kind) {
            return false;
        }
        i = i + 1;
    }
    true
}

} // verus!
