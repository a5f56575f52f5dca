//! Credentials as the token store keeps them, and the identity provider's
//! token answers.
use crate::error::CommandError;
use crate::parser::opt_view;
use crate::text::{chars_of, trim, trim_bounds};
use vstd::prelude::*;

verus! {

/// The model of a set of stored credentials.
pub struct TokensView {
    pub access_token: Seq<char>,
    pub id_token: Option<Seq<char>>,
    pub scope: Option<Seq<Seq<char>>>,
}

pub open spec fn opt_list_view(o: Option<Vec<String>>) -> Option<Seq<Seq<char>>> {
    match o {
        Some(v) => Some(v@.map_values(|s: String| s@)),
        None => None,
    }
}

/// Stored credentials: the access token, and the identity token that names
/// the user.
pub struct OAuthTokens {
    pub access_token: String,
    pub id_token: Option<String>,
    pub scope: Option<Vec<String>>,
}

impl View for OAuthTokens {
    type V = TokensView;

    open spec fn view(&self) -> TokensView {
        TokensView {
            access_token: self.access_token@,
            id_token: opt_view(self.id_token),
            scope: opt_list_view(self.scope),
        }
    }
}

/// Builds an `OAuthTokens` step by step.
pub struct OAuthTokensBuilder {
    access_token: String,
    id_token: Option<String>,
    scope: Option<Vec<String>>,
}

impl View for OAuthTokensBuilder {
    type V = TokensView;

    closed spec fn view(&self) -> TokensView {
        TokensView {
            access_token: self.access_token@,
            id_token: opt_view(self.id_token),
            scope: opt_list_view(self.scope),
        }
    }
}

impl OAuthTokens {
    /// A builder for credentials with this access token and nothing else.
    pub fn builder(access_token: String) -> (r: OAuthTokensBuilder)
        ensures
            r@ == (TokensView { access_token: access_token@, id_token: None, scope: None }),
    {
        OAuthTokensBuilder { access_token, id_token: None, scope: None }
    }
}

impl OAuthTokensBuilder {
    /// Sets the identity token.
    pub fn id_token(self, id_token: Option<String>) -> (r: OAuthTokensBuilder)
        ensures
            r@ == (TokensView { id_token: opt_view(id_token), ..self@ }),
    {
        OAuthTokensBuilder { id_token, ..self }
    }

    /// Sets the granted scopes.
    pub fn scope(self, scope: Option<Vec<String>>) -> (r: OAuthTokensBuilder)
        ensures
            r@ == (TokensView { scope: opt_list_view(scope), ..self@ }),
    {
        OAuthTokensBuilder { scope, ..self }
    }

    /// The credentials built so far.
    pub fn build(self) -> (r: OAuthTokens)
        ensures
            r@ == self@,
    {
        OAuthTokens { access_token: self.access_token, id_token: self.id_token, scope: self.scope }
    }
}

/// The credentials of a login: refused with `EmptyAccessToken` when the
/// access token is empty or only whitespace, otherwise the access token and
/// identity token as given, with no scopes.
pub fn login_tokens(access_token: String, id_token: Option<String>) -> (r: Result<
    OAuthTokens,
    CommandError,
>)
    ensures
        match r {
            Ok(t) => trim(access_token@).len() > 0 && t@ == (TokensView {
                access_token: access_token@,
                id_token: opt_view(id_token),
                scope: None,
            }),
            Err(e) => trim(access_token@).len() == 0 && e == CommandError::EmptyAccessToken,
        },
{
    let v = chars_of(access_token.as_str());
    let (a, b) = trim_bounds(v.as_slice(), 0, v.len());
    assert(v@.subrange(0, v@.len() as int) =~= v@);
    if a == b {
        return Err(CommandError::EmptyAccessToken);
    }
    Ok(OAuthTokens::builder(access_token).id_token(id_token).build())
}

/// The identity provider's answer to a code or refresh-token exchange.
pub struct OAuthClient {
    pub access_token: String,
    pub refresh_token: Option<String>,
    pub expires_in: u64,
    pub scope: Vec<String>,
    pub token_type: String,
}

/// A token answer as the exchange endpoint returns it.
pub struct TokenResponse {
    pub access_token: String,
    pub refresh_token: Option<String>,
    pub expires_in: u64,
    pub scope: Vec<String>,
    pub token_type: String,
}

} // verus!
