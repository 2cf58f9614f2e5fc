//! Authorization scopes and the credential kinds that may hold them.
use vstd::prelude::*;
use crate::text::str_eq;

verus! {

/// The kind of credential a token string represents.
#[derive(Clone, Copy, Debug, PartialEq, Eq, Structural)]
pub enum TokenType {
    App,
    Bot,
    User,
}

/// A named permission, with the credential kinds allowed to hold it.
pub struct Scope {
    name: &'static str,
    valid_tokens: Vec<TokenType>,
}

/// The registry: for each known scope name, the credential kinds that may hold it.
pub open spec fn scope_tokens(name: Seq<char>) -> Option<Seq<TokenType>> {
    if name == "admin"@ {
        Some(seq![TokenType::User])
    } else if name == "admin.analytics:read"@ {
        Some(seq![TokenType::User])
    } else if name == "admin.apps:read"@ {
        Some(seq![TokenType::User])
    } else if name == "admin.apps:write"@ {
        Some(seq![TokenType::User])
    } else if name == "channels:read"@ {
        Some(seq![TokenType::Bot, TokenType::User])
    } else if name == "groups:read"@ {
        Some(seq![TokenType::Bot, TokenType::User])
    } else if name == "im:read"@ {
        Some(seq![TokenType::Bot, TokenType::User])
    } else if name == "mpim:read"@ {
        Some(seq![TokenType::Bot, TokenType::User])
    } else {
        None
    }
}

/// Whether `name` is a scope of the registry.
pub open spec fn is_scope_name(name: Seq<char>) -> bool {
    scope_tokens(name) is Some
}

fn kinds(with_bot: bool) -> (v: Vec<TokenType>)
    ensures
        v@ == (if with_bot {
            seq![TokenType::Bot, TokenType::User]
        } else {
            seq![TokenType::User]
        }),
{
    let mut v = Vec::new();
    if with_bot {
        v.push(TokenType::Bot);
    }
    v.push(TokenType::User);
    v
}

impl Scope {
    pub closed spec fn spec_name(&self) -> Seq<char> {
        self.name@
    }

    pub closed spec fn spec_tokens(&self) -> Seq<TokenType> {
        self.valid_tokens@
    }

    /// The scope of the registry named `name`, if there is one.
    pub fn lookup(name: &'static str) -> (r: Option<Scope>)
        ensures
            r is Some <==> is_scope_name(name@),
            r matches Some(s) ==> s.spec_name() == name@ && Some(s.spec_tokens())
                == scope_tokens(name@),
    {
        let tokens = if str_eq(name, "admin") || str_eq(name, "admin.analytics:read") || str_eq(
            name,
            "admin.apps:read",
        ) || str_eq(name, "admin.apps:write") {
            kinds(false)
        } else if str_eq(name, "channels:read") || str_eq(name, "groups:read") || str_eq(
            name,
            "im:read",
        ) || str_eq(name, "mpim:read") {
            kinds(true)
        } else {
            return None;
        };
        Some(Scope { name, valid_tokens: tokens })
    }

    /// The scope of the registry named `name`. The registry is static, so an
    /// unknown name is a programming error and is excluded by the precondition.
    pub fn from_name(name: &'static str) -> (r: Scope)
        requires
            is_scope_name(name@),
        ensures
            r.spec_name() == name@,
            Some(r.spec_tokens()) == scope_tokens(name@),
    {
        match Self::lookup(name) {
            Some(s) => s,
            None => Scope { name, valid_tokens: Vec::new() },
        }
    }

    pub fn name(&self) -> (r: &'static str)
        ensures
            r@ == self.spec_name(),
    {
        self.name
    }

    pub fn token_types(&self) -> (r: &[TokenType])
        ensures
            r@ == self.spec_tokens(),
    {
        self.valid_tokens.as_slice()
    }

    /// Whether a credential of kind `kind` may hold this scope.
    pub fn allows(&self, kind: TokenType) -> (r: bool)
        ensures
            r == self.spec_tokens().contains(kind),
    {
        let mut i: usize = 0;
        while i < self.valid_tokens.len()
            invariant
                i <= self.valid_tokens@.len(),
                forall|j: int| 0 <= j < i ==> self.valid_tokens@[j] != kind,
            decreases self.valid_tokens@.len() - i,
        {
            if self.valid_tokens[i] == kind {
                return true;
            }
            i = i + 1;
        }
        false
    }
}

/// Scopes as a closed enumeration.
#[derive(Clone, Copy, Debug, PartialEq, Eq, Structural)]
pub enum OldScope {
    Admin,
    AdminAnalyticsRead,
    ChannelsRead,
    GroupsRead,
    ImRead,
    MpimRead,
}

} // verus!
