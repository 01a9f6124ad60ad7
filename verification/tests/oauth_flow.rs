use teamauth::data::{Auth0Config, States, UrlConfig};
use teamauth::oauth::{
    authorize_url, callback_decision, callback_url, cookie_domain, login, logout_response,
    token_endpoint, token_request_form, CallbackOutcome, ExchangeReply, OAuthTokenResponse,
};

fn config() -> Auth0Config {
    Auth0Config {
        client_id: String::from("cid123"),
        client_secret: String::from("shhh"),
        domain: String::from("auth.example.com"),
    }
}

fn urls() -> UrlConfig {
    UrlConfig {
        backend: String::from("https://api.example.com"),
        frontend: String::from("https://app.example.com"),
    }
}

#[test]
fn authorize_url_is_exact() {
    let url = authorize_url(&config(), &urls().backend, &String::from("abc123XYZ0"));
    let expected = "https://auth.example.com/authorize?client_id=cid123&redirect_uri=https%3A%2F%2Fapi.example.com%2Fauth%2Fcallback%3F&response_type=code&state=abc123XYZ0&scope=openid profile email user_id";
    assert_eq!(url, expected);
}

#[test]
fn login_issues_state_and_embeds_it() {
    let mut states = States::new();
    let (location, state) = login(&mut states, &config(), &urls());
    assert_eq!(state.chars().count(), 10);
    assert!(location.contains(&format!("state={state}")));
    assert!(location.starts_with("https://auth.example.com/authorize?"));
    assert!(states.check(&state));
}

#[test]
fn token_request_form_is_exact() {
    let form = token_request_form(&config(), &urls().backend, &String::from("thecode"));
    let pairs: Vec<(String, String)> = form;
    assert_eq!(pairs.len(), 5);
    assert_eq!(
        pairs[0],
        (String::from("grant_type"), String::from("authorization_code"))
    );
    assert_eq!(pairs[1], (String::from("client_id"), String::from("cid123")));
    assert_eq!(pairs[2], (String::from("client_secret"), String::from("shhh")));
    assert_eq!(pairs[3], (String::from("code"), String::from("thecode")));
    assert_eq!(
        pairs[4],
        (
            String::from("redirect_uri"),
            String::from("https://api.example.com/auth/callback?")
        )
    );
}

#[test]
fn token_endpoint_is_exact() {
    assert_eq!(token_endpoint(&config()), "https://auth.example.com/oauth/token");
    assert_eq!(
        callback_url(&String::from("https://api.example.com")),
        "https://api.example.com/auth/callback?"
    );
}

#[test]
fn cookie_domain_strips_scheme_and_local_port() {
    assert_eq!(
        cookie_domain(&String::from("https://app.example.com")),
        Some(String::from("app.example.com"))
    );
    assert_eq!(
        cookie_domain(&String::from("http://localhost:5173")),
        Some(String::from("localhost"))
    );
    assert_eq!(cookie_domain(&String::from("ftp://odd.example")), None);
}

#[test]
fn callback_with_unissued_state_is_bad_request() {
    let mut states = States::new();
    let _issued = states.add();
    let redeemed = states.check(&String::from("never-issued"));
    assert!(!redeemed);
    let outcome = callback_decision(redeemed, None, &urls());
    assert!(matches!(outcome, CallbackOutcome::InvalidState));
}

#[test]
fn callback_happy_path_sets_cookie_and_redirects() {
    let mut states = States::new();
    let (_location, state) = login(&mut states, &config(), &urls());
    let redeemed = states.check(&state);
    assert!(redeemed);
    let reply = ExchangeReply {
        status: 200,
        token: Some(OAuthTokenResponse {
            access_token: String::from("tok-abc"),
            expires_in: 86400,
        }),
    };
    match callback_decision(redeemed, Some(reply), &urls()) {
        CallbackOutcome::Success { location, cookie } => {
            assert_eq!(location, "https://app.example.com/participate");
            assert_eq!(cookie.name, "access_token");
            assert_eq!(cookie.value, "tok-abc");
            assert_eq!(cookie.max_age_seconds, 86400);
            assert!(cookie.http_only);
            assert!(cookie.secure);
            assert!(cookie.same_site_none);
            assert_eq!(cookie.path, "/");
            assert_eq!(cookie.domain, Some(String::from("app.example.com")));
        }
        other => panic!("expected Success, got {other:?}"),
    }
}

#[test]
fn callback_failures_are_internal_errors() {
    let reply_500 = ExchangeReply { status: 500, token: None };
    assert!(matches!(
        callback_decision(true, Some(reply_500), &urls()),
        CallbackOutcome::ExchangeFailed
    ));
    let reply_unreadable = ExchangeReply { status: 200, token: None };
    assert!(matches!(
        callback_decision(true, Some(reply_unreadable), &urls()),
        CallbackOutcome::ExchangeFailed
    ));
    assert!(matches!(
        callback_decision(true, None, &urls()),
        CallbackOutcome::ExchangeFailed
    ));
}

#[test]
fn logout_clears_the_cookie() {
    let (location, cookie) = logout_response(&urls());
    assert_eq!(location, "https://app.example.com");
    assert_eq!(cookie.name, "access_token");
    assert_eq!(cookie.value, "");
    assert_eq!(cookie.max_age_seconds, -1);
    assert!(cookie.http_only);
    assert!(!cookie.secure);
    assert!(!cookie.same_site_none);
    assert_eq!(cookie.path, "/");
    assert_eq!(cookie.domain, None);
}
