use mydocker::error::Error;
use mydocker::params::Params;
use mydocker::token_auth::{
    pass_token_auth, pass_token_auth_start, token_url, AuthAction, AuthState, Reply, TokenResponse,
};

fn reply(status: u16, challenge: Option<&str>, token: Option<&str>) -> Reply {
    Reply {
        status,
        challenge: challenge.map(|c| c.to_string()),
        token: token.map(|t| TokenResponse {
            token: t.to_string(),
            access_token: t.to_string(),
            expires_in: 300,
            issued_at: "2024-01-01T00:00:00Z".to_string(),
        }),
    }
}

const DOCKER_CHALLENGE: &str = r#"Bearer realm="https://auth.docker.io/token",service="registry.docker.io",scope="repository:library/busybox:pull""#;

#[test]
fn the_request_is_first_sent_as_it_is() {
    let (action, state) = pass_token_auth_start();
    assert_eq!(action, AuthAction::Send { authorization: None });
    assert_eq!(state, AuthState::AwaitingResponse);
}

#[test]
fn a_reply_other_than_401_is_final() {
    for status in [200u16, 204, 301, 400, 403, 404, 500] {
        let (action, next) = pass_token_auth(
            AuthState::AwaitingResponse,
            &reply(status, Some(DOCKER_CHALLENGE), None),
        );
        assert_eq!(action, AuthAction::Return);
        assert_eq!(next, None);
    }
}

#[test]
fn a_bearer_challenge_leads_to_the_token_endpoint() {
    let (action, next) =
        pass_token_auth(AuthState::AwaitingResponse, &reply(401, Some(DOCKER_CHALLENGE), None));
    assert_eq!(
        action,
        AuthAction::RequestToken {
            url: "https://auth.docker.io/token?service=registry.docker.io&scope=repository:library/busybox:pull"
                .to_string()
        }
    );
    assert_eq!(next, Some(AuthState::AwaitingToken));
}

#[test]
fn the_token_is_sent_with_the_second_request() {
    let (action, next) =
        pass_token_auth(AuthState::AwaitingToken, &reply(200, None, Some("abc.def")));
    assert_eq!(
        action,
        AuthAction::Send { authorization: Some("Bearer abc.def".to_string()) }
    );
    assert_eq!(next, Some(AuthState::AwaitingRetry));
}

#[test]
fn the_second_reply_is_final_even_if_it_is_401() {
    for status in [200u16, 401, 500] {
        let (action, next) = pass_token_auth(
            AuthState::AwaitingRetry,
            &reply(status, Some(DOCKER_CHALLENGE), Some("t")),
        );
        assert_eq!(action, AuthAction::Return);
        assert_eq!(next, None);
    }
}

#[test]
fn a_whole_exchange_sends_the_request_twice_and_asks_for_one_token() {
    let mut sends = 0;
    let mut token_requests = 0;
    let (mut action, first) = pass_token_auth_start();
    let mut state = Some(first);
    let replies = [
        reply(401, Some(DOCKER_CHALLENGE), None),
        reply(200, None, Some("tok")),
        reply(401, Some(DOCKER_CHALLENGE), None),
    ];
    let mut next_reply = 0;
    loop {
        match &action {
            AuthAction::Send { .. } => sends += 1,
            AuthAction::RequestToken { .. } => token_requests += 1,
            AuthAction::Return => break,
            AuthAction::Fail(e) => panic!("{:?}", e),
        }
        let step = pass_token_auth(state.unwrap(), &replies[next_reply]);
        next_reply += 1;
        action = step.0;
        state = step.1;
    }
    assert_eq!(state, None);
    assert_eq!(sends, 2);
    assert_eq!(token_requests, 1);
    assert_eq!(next_reply, 3);
}

#[test]
fn a_scheme_other_than_bearer_is_not_supported() {
    for header in [r#"Basic realm="registry""#, r#"bearer realm="r""#, "Digest", r#"BEARER realm="r""#] {
        let (action, next) =
            pass_token_auth(AuthState::AwaitingResponse, &reply(401, Some(header), None));
        assert_eq!(action, AuthAction::Fail(Error::AuthSchemeUnsupported), "{}", header);
        assert_eq!(next, None);
    }
}

#[test]
fn a_malformed_or_missing_challenge_fails() {
    for header in [r#"Bearer realm"#, r#"Bearer realm="https://auth"#, "", r#"realm="x",Bearer"#] {
        let (action, next) =
            pass_token_auth(AuthState::AwaitingResponse, &reply(401, Some(header), None));
        assert_eq!(action, AuthAction::Fail(Error::MalformedChallenge), "{}", header);
        assert_eq!(next, None);
    }
    let (action, next) = pass_token_auth(AuthState::AwaitingResponse, &reply(401, None, None));
    assert_eq!(action, AuthAction::Fail(Error::MalformedChallenge));
    assert_eq!(next, None);
}

#[test]
fn a_challenge_without_realm_fails_the_exchange() {
    let (action, next) = pass_token_auth(
        AuthState::AwaitingResponse,
        &reply(401, Some(r#"Bearer service="registry.docker.io""#), None),
    );
    assert_eq!(action, AuthAction::Fail(Error::TokenExchangeFailed));
    assert_eq!(next, None);
    let (bare, _) = pass_token_auth(AuthState::AwaitingResponse, &reply(401, Some("Bearer"), None));
    assert_eq!(bare, AuthAction::Fail(Error::TokenExchangeFailed));
}

#[test]
fn a_token_reply_outside_2xx_or_without_token_fails() {
    for status in [199u16, 300, 401, 404, 500] {
        let (action, next) =
            pass_token_auth(AuthState::AwaitingToken, &reply(status, None, Some("tok")));
        assert_eq!(action, AuthAction::Fail(Error::TokenExchangeFailed), "{}", status);
        assert_eq!(next, None);
    }
    let (action, next) = pass_token_auth(AuthState::AwaitingToken, &reply(200, None, None));
    assert_eq!(action, AuthAction::Fail(Error::TokenExchangeFailed));
    assert_eq!(next, None);
    for status in [200u16, 201, 299] {
        let (action, _) =
            pass_token_auth(AuthState::AwaitingToken, &reply(status, None, Some("tok")));
        assert_eq!(action, AuthAction::Send { authorization: Some("Bearer tok".to_string()) });
    }
}

#[test]
fn token_url_leaves_the_realm_out_of_the_query() {
    let mut params = Params::new();
    assert_eq!(token_url(&params), None);
    params.insert("service".into(), "s".into());
    assert_eq!(token_url(&params), None);
    params.insert("realm".into(), "https://r/token".into());
    assert_eq!(token_url(&params), Some("https://r/token?service=s".to_string()));
    params.insert("scope".into(), "a:b".into());
    assert_eq!(token_url(&params), Some("https://r/token?service=s&scope=a:b".to_string()));
    let mut alone = Params::new();
    alone.insert("realm".into(), "https://r/token".into());
    assert_eq!(token_url(&alone), Some("https://r/token?".to_string()));
}

#[test]
fn token_response_hands_out_its_fields() {
    let response = TokenResponse {
        token: "t".to_string(),
        access_token: "a".to_string(),
        expires_in: 300,
        issued_at: "now".to_string(),
    };
    assert_eq!(response.token(), "t");
    assert_eq!(response.access_token(), "a");
    assert_eq!(response.expires_in(), 300);
    assert_eq!(response.issued_at(), "now");
}
