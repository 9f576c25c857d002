//! The token protocol of registries: a request that is answered with 401 and
//! a `Bearer` challenge is sent once more with a token from the realm that
//! the challenge names.
//!
//! The caller sends the requests. After each reply it asks
//! [`pass_token_auth`] what to do next.

use vstd::prelude::*;
use vstd::string::*;
use crate::error::Error;
use crate::params::{lookup, Params};
use crate::text::{concat2, join, join_strings, str_eq, views, Text};
use crate::www_authenticate::{challenge_of, WwwAuthenticate};

verus! {

/// What the token endpoint answers.
#[derive(Debug, Clone, PartialEq, Eq)]
pub struct TokenResponse {
    /// The bearer token.
    pub token: String,
    /// The token under its other name.
    pub access_token: String,
    /// For how many seconds the token is good.
    pub expires_in: usize,
    /// When the token was issued.
    pub issued_at: String,
}

impl TokenResponse {
    /// The bearer token.
    pub fn token(&self) -> (r: &String)
        ensures
            r == &self.token,
    {
        &self.token
    }

    /// The token under its other name.
    pub fn access_token(&self) -> (r: &String)
        ensures
            r == &self.access_token,
    {
        &self.access_token
    }

    /// For how many seconds the token is good.
    pub fn expires_in(&self) -> (r: usize)
        ensures
            r == self.expires_in,
    {
        self.expires_in
    }

    /// When the token was issued.
    pub fn issued_at(&self) -> (r: &String)
        ensures
            r == &self.issued_at,
    {
        &self.issued_at
    }
}

/// The reply that the client waits for.
#[derive(Debug, Clone, Copy, PartialEq, Eq, Structural)]
pub enum AuthState {
    /// The reply to the request as it was first sent.
    AwaitingResponse,
    /// The reply of the token endpoint.
    AwaitingToken,
    /// The reply to the request sent with the token.
    AwaitingRetry,
}

/// What is read of a reply.
#[derive(Debug, Clone, PartialEq, Eq)]
pub struct Reply {
    /// The status code.
    pub status: u16,
    /// The `WWW-Authenticate` header, if the reply has one.
    pub challenge: Option<String>,
    /// The body, if it is a token response.
    pub token: Option<TokenResponse>,
}

/// A reply in specifications.
pub struct ReplyView {
    pub status: u16,
    pub challenge: Option<Text>,
    pub token: Option<Text>,
}

impl View for Reply {
    type V = ReplyView;

    open spec fn view(&self) -> ReplyView {
        ReplyView {
            status: self.status,
            challenge: match self.challenge {
                Some(c) => Some(c@),
                None => None,
            },
            token: match self.token {
                Some(t) => Some(t.token@),
                None => None,
            },
        }
    }
}

/// What the client is to do next.
#[derive(Debug, Clone, PartialEq, Eq)]
pub enum AuthAction {
    /// Send the request, with this `Authorization` header if there is one.
    Send { authorization: Option<String> },
    /// Ask the token endpoint at this address for a token.
    RequestToken { url: String },
    /// Hand the last reply to the caller: it is final.
    Return,
    /// Give up.
    Fail(Error),
}

/// An action in specifications.
pub enum AuthActionView {
    Send { authorization: Option<Text> },
    RequestToken { url: Text },
    Return,
    Fail(Error),
}

impl View for AuthAction {
    type V = AuthActionView;

    open spec fn view(&self) -> AuthActionView {
        match self {
            AuthAction::Send { authorization } => AuthActionView::Send {
                authorization: match authorization {
                    Some(a) => Some(a@),
                    None => None,
                },
            },
            AuthAction::RequestToken { url } => AuthActionView::RequestToken { url: url@ },
            AuthAction::Return => AuthActionView::Return,
            AuthAction::Fail(e) => AuthActionView::Fail(*e),
        }
    }
}

/// The parts of the query of a token request: `key=value` for every
/// parameter but the realm, in the order of the parameters.
pub open spec fn query_parts(params: Seq<(Text, Text)>) -> Seq<Text>
    decreases params.len(),
{
    if params.len() == 0 {
        Seq::empty()
    } else {
        let front = query_parts(params.drop_last());
        let last = params.last();
        if last.0 == "realm"@ {
            front
        } else {
            front.push(last.0 + "="@ + last.1)
        }
    }
}

/// The address of a token request: the realm of the challenge, a question
/// mark, and the other parameters joined by `&`. `None` where the challenge
/// names no realm.
pub open spec fn token_url_spec(params: Seq<(Text, Text)>) -> Option<Text> {
    match lookup(params, "realm"@) {
        Some(realm) => Some(realm + "?"@ + join(query_parts(params), "&"@)),
        None => None,
    }
}

/// The `Authorization` header for a token.
pub open spec fn authorization_spec(token: Text) -> Text {
    "Bearer "@ + token
}

/// What a reply with status 401 leads to, by its challenge header.
pub open spec fn challenge_step(header: Option<Text>) -> (AuthActionView, Option<AuthState>) {
    match header {
        None => (AuthActionView::Fail(Error::MalformedChallenge), None),
        Some(h) => match challenge_of(h) {
            None => (AuthActionView::Fail(Error::MalformedChallenge), None),
            Some(c) => if c.scheme != "Bearer"@ {
                (AuthActionView::Fail(Error::AuthSchemeUnsupported), None)
            } else {
                match token_url_spec(c.params) {
                    Some(url) => (
                        AuthActionView::RequestToken { url },
                        Some(AuthState::AwaitingToken),
                    ),
                    None => (AuthActionView::Fail(Error::TokenExchangeFailed), None),
                }
            },
        },
    }
}

/// Whether a status code says that the request succeeded.
pub open spec fn is_success(status: u16) -> bool {
    200 <= status < 300
}

/// What the client does after `reply` came while it was in `state`, and what
/// it waits for then; `None` where the exchange is over.
pub open spec fn auth_step(state: AuthState, reply: ReplyView) -> (
    AuthActionView,
    Option<AuthState>,
) {
    match state {
        AuthState::AwaitingResponse => if reply.status != 401 {
            (AuthActionView::Return, None)
        } else {
            challenge_step(reply.challenge)
        },
        AuthState::AwaitingToken => match reply.token {
            Some(token) => if is_success(reply.status) {
                (
                    AuthActionView::Send { authorization: Some(authorization_spec(token)) },
                    Some(AuthState::AwaitingRetry),
                )
            } else {
                (AuthActionView::Fail(Error::TokenExchangeFailed), None)
            },
            None => (AuthActionView::Fail(Error::TokenExchangeFailed), None),
        },
        AuthState::AwaitingRetry => (AuthActionView::Return, None),
    }
}

/// The number of replies that may still come in a state.
pub open spec fn auth_rank(state: AuthState) -> nat {
    match state {
        AuthState::AwaitingResponse => 3,
        AuthState::AwaitingToken => 2,
        AuthState::AwaitingRetry => 1,
    }
}

/// The actions that the client takes as the replies come in, from the state
/// `state` on. Replies that come after the exchange is over are not read.
pub open spec fn auth_actions(state: AuthState, replies: Seq<ReplyView>) -> Seq<AuthActionView>
    decreases replies.len(),
{
    if replies.len() == 0 {
        Seq::empty()
    } else {
        let step = auth_step(state, replies[0]);
        match step.1 {
            Some(next) => seq![step.0] + auth_actions(next, replies.drop_first()),
            None => seq![step.0],
        }
    }
}

/// Whatever the replies are, the client reads at most three of them: after
/// the first request it asks for at most one token and sends the request at
/// most once more. There is no second retry.
pub proof fn lemma_single_retry(replies: Seq<ReplyView>)
    ensures
        ({
            let actions = auth_actions(AuthState::AwaitingResponse, replies);
            &&& actions.len() <= 3
            &&& forall|i: int| 0 <= i < actions.len() && actions[i] is RequestToken ==> i == 0
            &&& forall|i: int| 0 <= i < actions.len() && actions[i] is Send ==> i == 1
            &&& actions.len() == 3 ==> actions[2] is Return
        }),
{
    reveal_with_fuel(auth_actions, 4);
    if replies.len() > 0 {
        let first = auth_step(AuthState::AwaitingResponse, replies[0]);
        if first.1 is Some {
            assert(first.1 == Some(AuthState::AwaitingToken));
            assert(first.0 is RequestToken);
            let rest = replies.drop_first();
            if rest.len() > 0 {
                let second = auth_step(AuthState::AwaitingToken, rest[0]);
                if second.1 is Some {
                    assert(second.1 == Some(AuthState::AwaitingRetry));
                    let last = rest.drop_first();
                    if last.len() > 0 {
                        let third = auth_step(AuthState::AwaitingRetry, last[0]);
                        assert(third.1 is None);
                    }
                }
            }
        }
    }
}

/// The address of the token request for a challenge with these parameters.
pub fn token_url(params: &Params) -> (r: Option<String>)
    ensures
        match r {
            Some(url) => token_url_spec(params@) == Some(url@),
            None => token_url_spec(params@) is None,
        },
{
    let realm = match params.get("realm") {
        Some(realm) => realm,
        None => {
            return None;
        },
    };
    let mut parts: Vec<String> = Vec::new();
    let n = params.len();
    let mut i: usize = 0;
    assert(params@.take(0) =~= Seq::<(Text, Text)>::empty());
    assert(views(parts@) =~= Seq::<Text>::empty());
    while i < n
        invariant
            i <= n,
            n == params@.len(),
            views(parts@) == query_parts(params@.take(i as int)),
        decreases n - i,
    {
        let entry = params.entry(i);
        proof {
            assert(params@.take(i + 1).drop_last() =~= params@.take(i as int));
            assert(params@.take(i + 1).last() == params@[i as int]);
        }
        if !str_eq(entry.0.as_str(), "realm") {
            let mut part = concat2(entry.0.as_str(), "=");
            part.append(entry.1.as_str());
            let ghost before = views(parts@);
            parts.push(part);
            assert(views(parts@) =~= before.push(part@));
        }
        i += 1;
    }
    assert(params@.take(n as int) =~= params@);
    let query = join_strings(&parts, "&");
    let mut url = concat2(realm.as_str(), "?");
    url.append(query.as_str());
    Some(url)
}

/// What the client does first: it sends the request as it is.
pub fn pass_token_auth_start() -> (r: (AuthAction, AuthState))
    ensures
        r.0@ == (AuthActionView::Send { authorization: None }),
        r.1 == AuthState::AwaitingResponse,
{
    (AuthAction::Send { authorization: None }, AuthState::AwaitingResponse)
}

/// What the client does after a reply with status 401.
fn answer_challenge(header: &Option<String>) -> (r: (AuthAction, Option<AuthState>))
    ensures
        (r.0@, r.1) == challenge_step(
            match header {
                Some(h) => Some(h@),
                None => None,
            },
        ),
{
    let header = match header {
        Some(h) => h,
        None => {
            return (AuthAction::Fail(Error::MalformedChallenge), None);
        },
    };
    let challenge = match WwwAuthenticate::parse(header.as_str()) {
        Ok(c) => c,
        Err(_) => {
            return (AuthAction::Fail(Error::MalformedChallenge), None);
        },
    };
    if !str_eq(challenge.scheme().as_str(), "Bearer") {
        return (AuthAction::Fail(Error::AuthSchemeUnsupported), None);
    }
    match token_url(challenge.pairs()) {
        Some(url) => (AuthAction::RequestToken { url }, Some(AuthState::AwaitingToken)),
        None => (AuthAction::Fail(Error::TokenExchangeFailed), None),
    }
}

/// One decision of the token protocol.
///
/// A first reply with a status other than 401 is final. One with 401 must
/// carry a challenge: a missing or malformed one fails with
/// `MalformedChallenge`, a scheme other than `Bearer` with
/// `AuthSchemeUnsupported`, a challenge without a realm with
/// `TokenExchangeFailed`; else a token is asked for at the realm. A token
/// reply outside 2xx or without a token fails with `TokenExchangeFailed`;
/// else the request is sent once more with the token. The reply to that is
/// final whatever its status: there is no second retry.
pub fn pass_token_auth(state: AuthState, reply: &Reply) -> (r: (AuthAction, Option<AuthState>))
    ensures
        (r.0@, r.1) == auth_step(state, reply@),
        r.1 matches Some(next) ==> auth_rank(next) < auth_rank(state),
        r.1 is None <==> (r.0 is Return || r.0 is Fail),
        state == AuthState::AwaitingRetry ==> r.0 is Return,
        r.0 matches AuthAction::Send { authorization } ==> authorization is Some && state
            == AuthState::AwaitingToken,
{
    match state {
        AuthState::AwaitingResponse => {
            if reply.status != 401 {
                (AuthAction::Return, None)
            } else {
                answer_challenge(&reply.challenge)
            }
        },
        AuthState::AwaitingToken => {
            match &reply.token {
                Some(response) => {
                    if 200 <= reply.status && reply.status < 300 {
                        let authorization = concat2("Bearer ", response.token.as_str());
                        (
                            AuthAction::Send { authorization: Some(authorization) },
                            Some(AuthState::AwaitingRetry),
                        )
                    } else {
                        (AuthAction::Fail(Error::TokenExchangeFailed), None)
                    }
                },
                None => (AuthAction::Fail(Error::TokenExchangeFailed), None),
            }
        },
        AuthState::AwaitingRetry => (AuthAction::Return, None),
    }
}

} // verus!
