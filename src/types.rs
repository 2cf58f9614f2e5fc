//! Credentials, identifiers, and the catalogs of remote error and warning codes.
use vstd::prelude::*;
use crate::scopes::{Scope, TokenType};
use crate::text::{is_prefix, split, split_on, starts_with, views};

verus! {

/// An error code the remote service may report.
#[derive(Clone, Copy, Debug, PartialEq, Eq, Structural)]
#[non_exhaustive]
pub enum Error {
    AccountInactive,
    NotAuthed,
    NotAllowedTokenType,
}

/// The error catalog: the kind named by a wire code.
pub open spec fn error_by_code(c: Seq<char>) -> Option<Error> {
    if c == "account_inactive"@ {
        Some(Error::AccountInactive)
    } else if c == "not_authed"@ {
        Some(Error::NotAuthed)
    } else if c == "not_allowed_token_type"@ {
        Some(Error::NotAllowedTokenType)
    } else {
        None
    }
}

/// The kinds named by a sequence of codes, or the first code the catalog lacks.
pub open spec fn errors_of(cs: Seq<Seq<char>>) -> Result<Seq<Error>, Seq<char>>
    decreases cs.len(),
{
    if cs.len() == 0 {
        Ok(Seq::empty())
    } else {
        match errors_of(cs.drop_last()) {
            Err(c) => Err(c),
            Ok(es) => match error_by_code(cs.last()) {
                Some(e) => Ok(es.push(e)),
                None => Err(cs.last()),
            },
        }
    }
}

impl Error {
    /// The kind named by one wire code.
    pub fn from_code(c: &str) -> (r: Option<Error>)
        ensures
            r == error_by_code(c@),
    {
        if crate::text::str_eq(c, "account_inactive") {
            Some(Error::AccountInactive)
        } else if crate::text::str_eq(c, "not_authed") {
            Some(Error::NotAuthed)
        } else if crate::text::str_eq(c, "not_allowed_token_type") {
            Some(Error::NotAllowedTokenType)
        } else {
            None
        }
    }

    /// Decodes a comma-separated list of codes, in order. A code the catalog
    /// lacks is returned as the error.
    pub fn from_codes(s: &str) -> (r: Result<Vec<Error>, String>)
        ensures
            r matches Ok(v) ==> errors_of(split_on(s@, ',')) == Ok::<Seq<Error>, Seq<char>>(v@),
            r matches Err(c) ==> errors_of(split_on(s@, ',')) == Err::<Seq<Error>, Seq<char>>(c@),
    {
        let pieces = split(s, ',');
        Error::from_code_list(&pieces)
    }

    /// Decodes a list of codes, in order. The first code the catalog lacks is
    /// returned as the error.
    pub fn from_code_list(pieces: &Vec<String>) -> (r: Result<Vec<Error>, String>)
        ensures
            r matches Ok(v) ==> errors_of(views(pieces@)) == Ok::<Seq<Error>, Seq<char>>(v@),
            r matches Err(c) ==> errors_of(views(pieces@)) == Err::<Seq<Error>, Seq<char>>(c@),
    {
        let ghost cs = views(pieces@);
        let mut out: Vec<Error> = Vec::new();
        let mut i: usize = 0;
        while i < pieces.len()
            invariant
                cs == views(pieces@),
                i <= pieces@.len(),
                errors_of(cs.subrange(0, i as int)) == Ok::<Seq<Error>, Seq<char>>(out@),
            decreases pieces@.len() - i,
        {
            assert(cs.subrange(0, i + 1).drop_last() =~= cs.subrange(0, i as int));
            match Error::from_code(pieces[i].as_str()) {
                Some(e) => out.push(e),
                None => {
                    let bad = pieces[i].clone();
                    proof { lemma_errors_prefix(cs, i as int + 1); }
                    return Err(bad);
                },
            }
            i = i + 1;
        }
        assert(cs.subrange(0, i as int) =~= cs);
        Ok(out)
    }
}

/// Once a prefix fails, every longer prefix fails with the same code.
pub proof fn lemma_errors_prefix(cs: Seq<Seq<char>>, k: int)
    requires
        0 <= k <= cs.len(),
        errors_of(cs.subrange(0, k)) is Err,
    ensures
        errors_of(cs) == errors_of(cs.subrange(0, k)),
    decreases cs.len() - k,
{
    if k < cs.len() {
        assert(cs.subrange(0, k + 1).drop_last() =~= cs.subrange(0, k));
        lemma_errors_prefix(cs, k + 1);
    } else {
        assert(cs.subrange(0, k) =~= cs);
    }
}

/// A warning code the remote service may report. The catalog names no code
/// yet, so every reported warning code is unknown; the one variant only holds
/// the place of the codes to come, and no code maps to it.
#[derive(Clone, Copy, Debug, PartialEq, Eq, Structural)]
#[non_exhaustive]
pub enum Warning {
    Reserved,
}

/// The warning catalog: the kind named by a wire code. It names none.
pub open spec fn warning_by_code(c: Seq<char>) -> Option<Warning> {
    None
}

/// The kinds named by a sequence of warning codes, or the first code the catalog lacks.
pub open spec fn warnings_of(cs: Seq<Seq<char>>) -> Result<Seq<Warning>, Seq<char>>
    decreases cs.len(),
{
    if cs.len() == 0 {
        Ok(Seq::empty())
    } else {
        match warnings_of(cs.drop_last()) {
            Err(c) => Err(c),
            Ok(ws) => match warning_by_code(cs.last()) {
                Some(w) => Ok(ws.push(w)),
                None => Err(cs.last()),
            },
        }
    }
}

} // verus!

verus! {

impl Warning {
    /// The kind named by one wire code.
    pub fn from_code(c: &str) -> (r: Option<Warning>)
        ensures
            r == warning_by_code(c@),
    {
        None
    }

    /// Decodes a comma-separated list of warning codes, in order. A code the
    /// catalog lacks is returned as the error.
    pub fn from_codes(s: &str) -> (r: Result<Vec<Warning>, String>)
        ensures
            r matches Ok(v) ==> warnings_of(split_on(s@, ',')) == Ok::<Seq<Warning>, Seq<char>>(
                v@,
            ),
            r matches Err(c) ==> warnings_of(split_on(s@, ',')) == Err::<Seq<Warning>, Seq<char>>(
                c@,
            ),
    {
        let pieces = split(s, ',');
        Warning::from_code_list(&pieces)
    }

    /// Decodes a list of codes, in order. The first code the catalog lacks is
    /// returned as the error.
    pub fn from_code_list(pieces: &Vec<String>) -> (r: Result<Vec<Warning>, String>)
        ensures
            r matches Ok(v) ==> warnings_of(views(pieces@)) == Ok::<Seq<Warning>, Seq<char>>(v@),
            r matches Err(c) ==> warnings_of(views(pieces@)) == Err::<Seq<Warning>, Seq<char>>(c@),
    {
        let ghost cs = views(pieces@);
        let mut out: Vec<Warning> = Vec::new();
        let mut i: usize = 0;
        while i < pieces.len()
            invariant
                cs == views(pieces@),
                i <= pieces@.len(),
                warnings_of(cs.subrange(0, i as int)) == Ok::<Seq<Warning>, Seq<char>>(out@),
            decreases pieces@.len() - i,
        {
            assert(cs.subrange(0, i + 1).drop_last() =~= cs.subrange(0, i as int));
            match Warning::from_code(pieces[i].as_str()) {
                Some(w) => out.push(w),
                None => {
                    let bad = pieces[i].clone();
                    proof { lemma_warnings_prefix(cs, i as int + 1); }
                    return Err(bad);
                },
            }
            i = i + 1;
        }
        assert(cs.subrange(0, i as int) =~= cs);
        Ok(out)
    }
}

/// Once a prefix fails, every longer prefix fails with the same code.
pub proof fn lemma_warnings_prefix(cs: Seq<Seq<char>>, k: int)
    requires
        0 <= k <= cs.len(),
        warnings_of(cs.subrange(0, k)) is Err,
    ensures
        warnings_of(cs) == warnings_of(cs.subrange(0, k)),
    decreases cs.len() - k,
{
    if k < cs.len() {
        assert(cs.subrange(0, k + 1).drop_last() =~= cs.subrange(0, k));
        lemma_warnings_prefix(cs, k + 1);
    } else {
        assert(cs.subrange(0, k) =~= cs);
    }
}

/// The rate-limit class of an endpoint.
#[derive(Clone, Copy, Debug, PartialEq, Eq, Structural)]
pub enum RateLimit {
    Tier1,
    Tier2,
    Tier3,
    Tier4,
    TierSpecial,
    PostMessage,
    IncomingWebhooks,
    Events,
}

/// The credential kind a token string has, by its prefix.
pub open spec fn token_kind(s: Seq<char>) -> Option<TokenType> {
    if is_prefix("xapp"@, s) {
        Some(TokenType::App)
    } else if is_prefix("xoxb"@, s) {
        Some(TokenType::Bot)
    } else if is_prefix("xoxp"@, s) {
        Some(TokenType::User)
    } else {
        None
    }
}

/// A credential string together with its kind.
pub struct Token {
    raw: String,
    kind: TokenType,
}

impl Token {
    pub closed spec fn spec_raw(&self) -> Seq<char> {
        self.raw@
    }

    pub closed spec fn spec_kind(&self) -> TokenType {
        self.kind
    }

    /// Classifies `raw` by its prefix; `None` where no kind's prefix matches.
    pub fn new(raw: &str) -> (r: Option<Token>)
        ensures
            r is Some <==> token_kind(raw@) is Some,
            r matches Some(t) ==> t.spec_raw() == raw@ && Some(t.spec_kind()) == token_kind(
                raw@,
            ),
    {
        let kind = if starts_with(raw, "xapp") {
            TokenType::App
        } else if starts_with(raw, "xoxb") {
            TokenType::Bot
        } else if starts_with(raw, "xoxp") {
            TokenType::User
        } else {
            return None;
        };
        Some(Token { raw: raw.to_owned(), kind })
    }

    pub fn kind(&self) -> (r: TokenType)
        ensures
            r == self.spec_kind(),
    {
        self.kind
    }

    pub fn as_str(&self) -> (r: &str)
        ensures
            r@ == self.spec_raw(),
    {
        self.raw.as_str()
    }
}

/// Whether `token` may hold `scope`.
pub fn validate_scope_for_token(scope: &Scope, token: &Token) -> (r: bool)
    ensures
        r == scope.spec_tokens().contains(token.spec_kind()),
{
    scope.allows(token.kind())
}

/// An app-level token (prefix `xapp`).
#[derive(Debug)]
pub struct AppToken(String);

impl AppToken {
    pub closed spec fn view(&self) -> Seq<char> {
        self.0@
    }

    pub fn new(s: &str) -> (r: Option<AppToken>)
        ensures
            r is Some <==> is_prefix("xapp"@, s@),
            r matches Some(t) ==> t.view() == s@,
    {
        if starts_with(s, "xapp") {
            Some(AppToken(s.to_owned()))
        } else {
            None
        }
    }
}

/// A bot token (prefix `xoxb`).
#[derive(Debug)]
pub struct BotToken(String);

impl BotToken {
    pub closed spec fn view(&self) -> Seq<char> {
        self.0@
    }

    pub fn new(s: &str) -> (r: Option<BotToken>)
        ensures
            r is Some <==> is_prefix("xoxb"@, s@),
            r matches Some(t) ==> t.view() == s@,
    {
        if starts_with(s, "xoxb") {
            Some(BotToken(s.to_owned()))
        } else {
            None
        }
    }
}

/// A user token (prefix `xoxp`).
#[derive(Debug)]
pub struct UserToken(String);

impl UserToken {
    pub closed spec fn view(&self) -> Seq<char> {
        self.0@
    }

    pub fn new(s: &str) -> (r: Option<UserToken>)
        ensures
            r is Some <==> is_prefix("xoxp"@, s@),
            r matches Some(t) ==> t.view() == s@,
    {
        if starts_with(s, "xoxp") {
            Some(UserToken(s.to_owned()))
        } else {
            None
        }
    }
}

#[derive(Debug)]
pub struct AppId(pub String);

#[derive(Debug)]
pub struct BotId(pub String);

#[derive(Debug)]
pub struct ChannelId(pub String);

#[derive(Debug)]
pub struct CommentId(pub String);

#[derive(Debug)]
pub struct EnterpriseId(pub String);

#[derive(Debug)]
pub struct TeamId(pub String);

#[derive(Debug)]
pub struct UserId(pub String);

#[derive(Debug)]
pub struct WorkspaceId(pub String);

#[derive(Debug)]
pub struct Timestamp(pub String);

/// A decoded successful response: the endpoint's data and any warnings.
#[derive(Debug)]
pub struct SlackResponse<T> {
    pub data: T,
    pub warnings: Option<Vec<Warning>>,
}

} // verus!
