use tishlang_desktop::auth::{
    access_token_step, arg_endpoint, arg_scope, callback_from_pairs, check_auth_host,
    code_challenge_s256, exchange_form, finish_login, fresh_cached_token, host_allowed,
    is_oauth_scheme_callback, join_with_spaces, login_request, loopback_callback_step,
    loopback_redirect_uri, new_pkce, parse_callback_query, prepare_login, random_url_safe,
    refresh_form, scheme_callback_step, secret_key, secret_set_args, token_grant,
    uses_scheme_redirect, AccessTokenStep, CallbackStep, PendingOAuth, PkceSecrets,
};
use tishlang_desktop::json::{Json, JsonNumber};

fn s(t: &str) -> Json {
    Json::Str(t.to_string())
}

fn obj(pairs: Vec<(&str, Json)>) -> Json {
    Json::Object(pairs.into_iter().map(|(k, v)| (k.to_string(), v)).collect())
}

fn strings(v: &[&str]) -> Vec<String> {
    v.iter().map(|x| x.to_string()).collect()
}

fn pending(state: &str) -> PendingOAuth {
    PendingOAuth {
        verifier: "v".to_string(),
        csrf_state: state.to_string(),
        token_url: "https://id.example/token".to_string(),
        client_id: "cid".to_string(),
        redirect_uri: "http://127.0.0.1:5000/callback".to_string(),
    }
}

#[test]
fn pkce_challenge_is_base64url_of_sha256() {
    // SHA-256("abc") = ba7816bf...f20015ad
    assert_eq!(code_challenge_s256("abc"), "ungWv48Bz-pBQUDeXa4iI7ADYaOWF3qctBD_YfIAFa0");
    assert_eq!(
        code_challenge_s256("dBjftJeZ4CVP-mJ92K9qJ3f7YL-Kxj0iDTGsz9JJZ3o"),
        "5PkK-lBhPAiWNm3NfFgrj6E2-P-iad2lHKnFYxX4RCw"
    );
}

#[test]
fn random_secrets_have_base64url_lengths() {
    assert_eq!(random_url_safe(48).len(), 64);
    assert_eq!(random_url_safe(24).len(), 32);
    let p = new_pkce();
    assert_eq!(p.challenge, code_challenge_s256(&p.verifier));
    assert!(p.verifier.chars().all(|c| c.is_ascii_alphanumeric() || c == '-' || c == '_'));
}

#[test]
fn scheme_callbacks_are_recognised() {
    assert!(is_oauth_scheme_callback("tish-desktop://oauth/callback?code=1"));
    assert!(is_oauth_scheme_callback("tish-desktop://oauth/callback"));
    assert!(!is_oauth_scheme_callback("https://oauth/callback"));
}

#[test]
fn endpoints_and_scopes() {
    let args = obj(vec![("authorizationEndpoint", s("https://a")), ("tokenUrl", Json::Bool(true))]);
    assert_eq!(arg_endpoint(&args, "authorizeUrl", "authorizationEndpoint"), Ok("https://a".to_string()));
    assert_eq!(
        arg_endpoint(&args, "tokenUrl", "tokenEndpoint"),
        Err("tokenUrl (or tokenEndpoint) required".to_string())
    );
    assert_eq!(arg_scope(&obj(vec![("scope", s("openid"))])), "openid");
    assert_eq!(
        arg_scope(&obj(vec![("scopes", Json::Array(vec![s("a"), Json::Null, s("b"), s("c")]))])),
        "a b c"
    );
    assert_eq!(arg_scope(&obj(vec![])), "");
    assert_eq!(join_with_spaces(&strings(&["x"])), "x");
}

#[test]
fn token_hosts() {
    assert_eq!(check_auth_host(&vec![], "not a url"), Ok(()));
    let hosts = strings(&["id.example"]);
    assert_eq!(check_auth_host(&hosts, "https://id.example/token"), Ok(()));
    assert_eq!(
        check_auth_host(&hosts, "https://evil.example/token"),
        Err("token host not allowed: evil.example".to_string())
    );
    assert!(check_auth_host(&hosts, "::bad::").is_err());
    assert_eq!(
        host_allowed(&hosts, Ok(None)),
        Err("token host not allowed: ".to_string())
    );
    assert_eq!(host_allowed(&hosts, Err("bad".to_string())), Err("bad".to_string()));
}

#[test]
fn login_request_reads_arguments_in_order() {
    assert_eq!(
        login_request(&obj(vec![])).err(),
        Some("authorizeUrl (or authorizationEndpoint) required".to_string())
    );
    assert_eq!(
        login_request(&obj(vec![("authorizeUrl", s("https://a"))])).err(),
        Some("tokenUrl (or tokenEndpoint) required".to_string())
    );
    assert_eq!(
        login_request(&obj(vec![("authorizeUrl", s("https://a")), ("tokenUrl", s("https://t"))])).err(),
        Some("clientId required".to_string())
    );
    let req = login_request(&obj(vec![
        ("authorizeUrl", s("https://id.example/authorize")),
        ("tokenEndpoint", s("https://id.example/token")),
        ("clientId", s("cid")),
        ("redirectMode", s("SCHEME")),
        ("extraAuthParams", obj(vec![("prompt", s("consent")), ("n", Json::Number(JsonNumber::PosInt(1)))])),
    ]))
    .unwrap();
    assert_eq!(req.token_url, "https://id.example/token");
    assert_eq!(req.redirect_mode, "scheme");
    assert!(uses_scheme_redirect(&req));
    assert_eq!(req.extra, vec![("prompt".to_string(), "consent".to_string())]);
    assert_eq!(req.scope, "");
}

#[test]
fn prepare_login_checks_permission_then_host() {
    let args = obj(vec![
        ("authorizeUrl", s("https://id.example/authorize")),
        ("tokenUrl", s("https://other.example/token")),
        ("clientId", s("cid")),
    ]);
    assert_eq!(
        prepare_login(&strings(&["dialog"]), &vec![], &args).err(),
        Some("auth permission denied".to_string())
    );
    assert_eq!(
        prepare_login(&strings(&["auth"]), &strings(&["id.example"]), &args).err(),
        Some("token host not allowed: other.example".to_string())
    );
    assert!(prepare_login(&strings(&["auth"]), &vec![], &args).is_ok());
}

#[test]
fn finish_login_builds_the_authorize_url() {
    let req = login_request(&obj(vec![
        ("authorizeUrl", s("https://id.example/authorize?x=1")),
        ("tokenUrl", s("https://id.example/token")),
        ("clientId", s("cid")),
        ("scopes", Json::Array(vec![s("openid"), s("email")])),
    ]))
    .unwrap();
    let pkce = PkceSecrets {
        verifier: "ver".to_string(),
        challenge: "chal".to_string(),
        csrf_state: "st".to_string(),
    };
    let redirect = loopback_redirect_uri(5000);
    assert_eq!(redirect, "http://127.0.0.1:5000/callback");
    let start = finish_login(req, pkce, redirect).unwrap();
    assert_eq!(
        start.authorize_url,
        "https://id.example/authorize?x=1&response_type=code&client_id=cid&redirect_uri=http%3A%2F%2F127.0.0.1%3A5000%2Fcallback&scope=openid+email&state=st&code_challenge=chal&code_challenge_method=S256"
    );
    assert_eq!(start.pending.csrf_state, "st");
    assert_eq!(start.pending.verifier, "ver");
    assert_eq!(start.reply.get("redirectMode"), Some(&s("loopback")));
    assert_eq!(start.reply.get("pending"), Some(&Json::Bool(true)));
}

#[test]
fn finish_login_fails_on_a_bad_authorize_url() {
    let req = login_request(&obj(vec![
        ("authorizeUrl", s("not a url")),
        ("tokenUrl", s("https://id.example/token")),
        ("clientId", s("cid")),
    ]))
    .unwrap();
    let pkce = PkceSecrets { verifier: "v".into(), challenge: "c".into(), csrf_state: "s".into() };
    assert!(finish_login(req, pkce, "x".to_string()).is_err());
}

#[test]
fn callback_queries() {
    assert_eq!(
        parse_callback_query("/callback?code=abc&state=xyz"),
        Ok(("abc".to_string(), "xyz".to_string()))
    );
    assert_eq!(
        parse_callback_query("tish-desktop://oauth/callback?state=s&code=1&code=2"),
        Ok(("2".to_string(), "s".to_string()))
    );
    assert_eq!(
        parse_callback_query("/callback?state=only"),
        Err("no code in callback".to_string())
    );
    assert_eq!(
        callback_from_pairs(&vec![("code".to_string(), "c".to_string())]),
        Ok(("c".to_string(), String::new()))
    );
}

#[test]
fn callbacks_match_the_pending_login() {
    let mut slot = Some(pending("good"));
    match scheme_callback_step(Ok(("code1".into(), "good".into())), &mut slot) {
        CallbackStep::Exchange { pending, code } => {
            assert_eq!(code, "code1");
            assert_eq!(pending.csrf_state, "good");
        }
        _ => panic!("expected exchange"),
    }
    assert!(slot.is_none());

    let mut slot = Some(pending("good"));
    assert!(matches!(
        scheme_callback_step(Ok(("c".into(), "bad".into())), &mut slot),
        CallbackStep::StateMismatch
    ));
    assert!(slot.is_none());

    let mut slot = Some(pending("good"));
    assert!(matches!(
        scheme_callback_step(Err("no code in callback".into()), &mut slot),
        CallbackStep::NotHandled
    ));
    assert!(slot.is_some());

    let mut empty: Option<PendingOAuth> = None;
    assert_eq!(
        loopback_callback_step(Ok(("c".into(), "s".into())), &mut empty).err(),
        Some("no pending oauth session".to_string())
    );
    let mut slot = Some(pending("good"));
    assert_eq!(
        loopback_callback_step(Ok(("c".into(), "bad".into())), &mut slot).err(),
        Some("state mismatch".to_string())
    );
}

#[test]
fn token_forms_and_grants() {
    let form = exchange_form(&pending("s"), "thecode");
    assert_eq!(form[0], ("grant_type".to_string(), "authorization_code".to_string()));
    assert_eq!(form[1], ("code".to_string(), "thecode".to_string()));
    assert_eq!(form[4], ("code_verifier".to_string(), "v".to_string()));
    let form = refresh_form("rt", "cid");
    assert_eq!(form, vec![
        ("grant_type".to_string(), "refresh_token".to_string()),
        ("refresh_token".to_string(), "rt".to_string()),
        ("client_id".to_string(), "cid".to_string()),
    ]);
    let body = obj(vec![("access_token", s("at")), ("expires_in", Json::Number(JsonNumber::PosInt(60)))]);
    let g = token_grant(&body, 1000, "missing").unwrap();
    assert_eq!(g.access_token, "at");
    assert_eq!(g.expires_at, 1060);
    assert_eq!(g.refresh_token, None);
    let body = obj(vec![("access_token", s("at")), ("refresh_token", s("rt"))]);
    let g = token_grant(&body, 1000, "missing").unwrap();
    assert_eq!(g.expires_at, 4600);
    assert_eq!(g.refresh_token.as_deref(), Some("rt"));
    assert_eq!(token_grant(&obj(vec![]), 0, "no access_token in response").err(),
        Some("no access_token in response".to_string()));
}

#[test]
fn cached_tokens_stay_fresh_until_thirty_seconds_remain() {
    let cache = Some(("tok".to_string(), 1000u64));
    assert_eq!(fresh_cached_token(&cache, 969), Some("tok".to_string()));
    assert_eq!(fresh_cached_token(&cache, 970), None);
    assert_eq!(fresh_cached_token(&None, 0), None);
    let perms = strings(&["auth"]);
    match access_token_step(&perms, &vec![], &obj(vec![]), &cache, 10).unwrap() {
        AccessTokenStep::Cached(t) => assert_eq!(t, "tok"),
        _ => panic!("expected cached"),
    }
    assert_eq!(
        access_token_step(&perms, &vec![], &obj(vec![("tokenUrl", s("https://t"))]), &None, 10).err(),
        Some("clientId required to refresh the access token".to_string())
    );
}

#[test]
fn secrets_arguments() {
    let perms = strings(&["secrets"]);
    assert_eq!(secret_key(&vec![], &obj(vec![])).err(), Some("secrets permission denied".to_string()));
    assert_eq!(secret_key(&perms, &obj(vec![])).err(), Some("key required".to_string()));
    assert_eq!(
        secret_set_args(&perms, &obj(vec![("key", s("k"))])).err(),
        Some("value required".to_string())
    );
    assert_eq!(
        secret_set_args(&perms, &obj(vec![("key", s("k")), ("value", s("v"))])),
        Ok(("k".to_string(), "v".to_string()))
    );
}
