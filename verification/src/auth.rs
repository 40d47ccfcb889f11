//! OAuth2 authorization-code login with PKCE, and the `secrets.*` / `auth.*` argument rules.
//!
//! The library decides: what a login needs from its arguments, which token hosts are allowed,
//! the authorize URL and the pending session, how a callback is matched to that session, what a
//! token response grants, and when a cached access token is still fresh. The host does the I/O:
//! the loopback listener, opening the browser, the token POST and the keychain.

use vstd::prelude::*;
use vstd::utf8::encode_utf8;

use base64::Engine;
use rand::RngCore;
use sha2::{Digest, Sha256};

use crate::config::{ensure_permission, has_permission, permission_check};
use crate::json::{
    items_view, json_as_u64, json_lookup, json_obj, json_string, json_view, lemma_items_view_index,
    member, member_or, member_views, object_of, opt_str_json, opt_string_json, owned, str_member,
    strs_view, Json, JsonV,
};
use crate::text::{
    ascii_lower, chars_of, contains, contains_seq, decimal, decimal_chars, has_prefix, lower_ascii,
    starts_with, str_eq, string_of,
};

verus! {

/// Redirect target of the custom-scheme login mode.
pub const OAUTH_SCHEME_REDIRECT: &'static str = "tish-desktop://oauth/callback";

/// Keychain service under which secrets are stored.
pub const SECRETS_SERVICE: &'static str = "com.tishlang.desktop";

/// Keychain entry that holds the refresh token.
pub const REFRESH_TOKEN_KEY: &'static str = "auth:refresh_token";

/// Whether `url` is the custom-scheme OAuth redirect.
pub fn is_oauth_scheme_callback(url: &str) -> (r: bool)
    ensures
        r == has_prefix(url@, "tish-desktop://oauth/callback"@),
{
    let u = chars_of(url);
    let p = chars_of(OAUTH_SCHEME_REDIRECT);
    proof {
        reveal_strlit("tish-desktop://oauth/callback");
    }
    starts_with(&u, &p)
}

// ---- trusted items ----------------------------------------------------------------------

/// What `base64`'s URL-safe engine without padding makes of `b`.
pub open spec fn base64_url_nopad(b: Seq<u8>) -> Seq<char> {
    crate::text::base64_encoded(b, true, false)
}

/// Trusted: `base64::engine::general_purpose::URL_SAFE_NO_PAD.encode`: the RFC 4648 encoding
/// in the URL-safe alphabet, without padding.
#[verifier::external_body]
fn encode_base64_url(b: &[u8]) -> (r: String)
    ensures
        r@ == base64_url_nopad(b@),
{
    base64::engine::general_purpose::URL_SAFE_NO_PAD.encode(b)
}

/// The SHA-256 digest of `b`.
pub uninterp spec fn sha256(b: Seq<u8>) -> Seq<u8>;

/// Trusted: `sha2::Sha256::digest`, its 32 bytes copied into a vector. The digest is named.
#[verifier::external_body]
fn sha256_digest(b: &[u8]) -> (r: Vec<u8>)
    ensures
        r@ == sha256(b@),
{
    Sha256::digest(b).to_vec()
}

/// Trusted: `rand::thread_rng().fill_bytes` on a zeroed buffer of `len` bytes. The bytes are
/// random; only their number is claimed.
#[verifier::external_body]
fn random_bytes(len: usize) -> (r: Vec<u8>)
    ensures
        r@.len() == len,
{
    let mut bytes = vec![0u8; len];
    rand::thread_rng().fill_bytes(&mut bytes);
    bytes
}

/// Seconds since the Unix epoch, 0 when the clock is before it.
/// Trusted: `std::time::SystemTime::now().duration_since(UNIX_EPOCH)`; nothing is claimed of
/// the value, which is the time.
#[verifier::external_body]
pub fn now_secs() -> (r: u64) {
    std::time::SystemTime::now()
        .duration_since(std::time::UNIX_EPOCH)
        .map(|d| d.as_secs())
        .unwrap_or(0)
}

/// `url::Url::parse(s)` followed by `host_str()`: the host, or the parse error's message.
pub uninterp spec fn url_host_spec(s: Seq<char>) -> Result<Option<Seq<char>>, Seq<char>>;

/// Trusted: `url::Url::parse` and `Url::host_str`; the outcome is named.
#[verifier::external_body]
pub(crate) fn url_host(s: &str) -> (r: Result<Option<String>, String>)
    ensures
        host_result_view(r) == url_host_spec(s@),
{
    url::Url::parse(s).map(|u| u.host_str().map(|h| h.to_string())).map_err(|e| e.to_string())
}

/// `url::Url::parse(s)` followed by `query_pairs()`: the decoded query pairs in order, or the
/// parse error's message.
pub uninterp spec fn url_query_pairs_spec(s: Seq<char>) -> Result<Seq<(Seq<char>, Seq<char>)>, Seq<char>>;

/// Trusted: `url::Url::parse` and `Url::query_pairs`; the outcome is named.
#[verifier::external_body]
fn url_query_pairs(s: &str) -> (r: Result<Vec<(String, String)>, String>)
    ensures
        pairs_result_view(r) == url_query_pairs_spec(s@),
{
    url::Url::parse(s).map(|u| u.query_pairs().into_owned().collect()).map_err(|e| e.to_string())
}

/// `url::Url::parse_with_params(base, pairs)` as a string: `base` with `pairs` appended to its
/// query, or the parse error's message.
pub uninterp spec fn url_with_params_spec(base: Seq<char>, pairs: Seq<(Seq<char>, Seq<char>)>) -> Result<Seq<char>, Seq<char>>;

/// Trusted: `url::Url::parse_with_params` and `to_string`; the outcome is named.
#[verifier::external_body]
fn url_with_params(base: &str, pairs: &Vec<(String, String)>) -> (r: Result<String, String>)
    ensures
        text_result_view(r) == url_with_params_spec(base@, pairs_view(pairs@)),
{
    url::Url::parse_with_params(base, pairs).map(|u| u.to_string()).map_err(|e| e.to_string())
}

// ---- views --------------------------------------------------------------------------------

pub open spec fn pairs_view(p: Seq<(String, String)>) -> Seq<(Seq<char>, Seq<char>)> {
    p.map_values(|x: (String, String)| (x.0@, x.1@))
}

pub open spec fn text_result_view(r: Result<String, String>) -> Result<Seq<char>, Seq<char>> {
    match r {
        Ok(s) => Ok(s@),
        Err(e) => Err(e@),
    }
}

pub open spec fn host_result_view(r: Result<Option<String>, String>) -> Result<Option<Seq<char>>, Seq<char>> {
    match r {
        Ok(Some(h)) => Ok(Some(h@)),
        Ok(None) => Ok(None),
        Err(e) => Err(e@),
    }
}

pub open spec fn pairs_result_view(r: Result<Vec<(String, String)>, String>) -> Result<Seq<(Seq<char>, Seq<char>)>, Seq<char>> {
    match r {
        Ok(p) => Ok(pairs_view(p@)),
        Err(e) => Err(e@),
    }
}

} // verus!

verus! {

/// `len` random bytes, base64url-encoded without padding.
pub fn random_url_safe(len: usize) -> (r: String)
    ensures
        exists|b: Seq<u8>| b.len() == len && r@ == base64_url_nopad(b),
{
    let bytes = random_bytes(len);
    encode_base64_url(bytes.as_slice())
}

/// The PKCE S256 challenge of a verifier: base64url (no padding) of the SHA-256 of its UTF-8.
pub open spec fn s256_challenge(verifier: Seq<char>) -> Seq<char> {
    base64_url_nopad(sha256(encode_utf8(verifier)))
}

/// The PKCE S256 challenge of `verifier`.
pub fn code_challenge_s256(verifier: &str) -> (r: String)
    ensures
        r@ == s256_challenge(verifier@),
{
    let digest = sha256_digest(verifier.as_bytes());
    encode_base64_url(digest.as_slice())
}

/// Whether a parsed token URL may be used: its host (empty when it has none) must be one of
/// `hosts`; a URL that does not parse fails with the parser's message.
pub open spec fn host_allowed_spec(hosts: Seq<Seq<char>>, parsed: Result<Option<Seq<char>>, Seq<char>>) -> Result<(), Seq<char>> {
    match parsed {
        Err(e) => Err(e),
        Ok(h) => {
            let host = match h {
                Some(x) => x,
                None => Seq::empty(),
            };
            if hosts.contains(host) {
                Ok(())
            } else {
                Err("token host not allowed: "@ + host)
            }
        },
    }
}

/// The token-host rule: no list allows every URL; a list allows the URLs whose host is on it.
pub open spec fn auth_host_check(hosts: Seq<Seq<char>>, url: Seq<char>) -> Result<(), Seq<char>> {
    if hosts.len() == 0 {
        Ok(())
    } else {
        host_allowed_spec(hosts, url_host_spec(url))
    }
}

pub open spec fn unit_result_view(r: Result<(), String>) -> Result<(), Seq<char>> {
    match r {
        Ok(()) => Ok(()),
        Err(e) => Err(e@),
    }
}

/// Decides the token-host rule on an already parsed URL.
pub fn host_allowed(hosts: &Vec<String>, parsed: Result<Option<String>, String>) -> (r: Result<(), String>)
    ensures
        unit_result_view(r) == host_allowed_spec(strs_view(hosts@), host_result_view(parsed)),
{
    match parsed {
        Err(e) => Err(e),
        Ok(h) => {
            let host = match h {
                Some(x) => x,
                None => String::new(),
            };
            if has_permission(hosts, host.as_str()) {
                Ok(())
            } else {
                Err(String::from_str("token host not allowed: ").concat(host.as_str()))
            }
        },
    }
}

/// Refuses a token URL whose host is not on the configured list (an empty list allows all).
pub fn check_auth_host(hosts: &Vec<String>, url: &str) -> (r: Result<(), String>)
    ensures
        unit_result_view(r) == auth_host_check(strs_view(hosts@), url@),
{
    if hosts.len() == 0 {
        return Ok(());
    }
    host_allowed(hosts, url_host(url))
}

/// An endpoint argument: member `camel` if present, else `alt`; it must be a string.
pub open spec fn endpoint_arg(args: JsonV, camel: Seq<char>, alt: Seq<char>) -> Result<Seq<char>, Seq<char>> {
    match member_or(args, camel, alt) {
        Some(JsonV::Str(s)) => Ok(s),
        _ => Err(camel + " (or "@ + alt + ") required"@),
    }
}

/// Reads an endpoint argument given under either of two names.
pub fn arg_endpoint(args: &Json, camel: &str, alt: &str) -> (r: Result<String, String>)
    ensures
        text_result_view(r) == endpoint_arg(args@, camel@, alt@),
{
    match args.get_or(camel, alt) {
        Some(v) => match v.as_str() {
            Some(s) => {
                return Ok(owned(s));
            },
            None => {},
        },
        None => {},
    }
    Err(String::from_str(camel).concat(" (or ").concat(alt).concat(") required"))
}

/// The strings among `items`, in order.
pub open spec fn string_items(items: Seq<JsonV>) -> Seq<Seq<char>>
    decreases items.len(),
{
    if items.len() == 0 {
        Seq::empty()
    } else {
        let rest = string_items(items.drop_last());
        match items.last() {
            JsonV::Str(s) => rest.push(s),
            _ => rest,
        }
    }
}

/// `ss` joined with single spaces.
pub open spec fn join_words(ss: Seq<Seq<char>>) -> Seq<char>
    decreases ss.len(),
{
    if ss.len() == 0 {
        Seq::empty()
    } else if ss.len() == 1 {
        ss[0]
    } else {
        join_words(ss.drop_last()) + " "@ + ss.last()
    }
}

/// The OAuth scope: `scope` when it is a string, else the strings of the `scopes` array joined
/// with spaces, else empty.
pub open spec fn scope_arg(args: JsonV) -> Seq<char> {
    match str_member(args, "scope"@) {
        Some(s) => s,
        None => match member(args, "scopes"@) {
            Some(JsonV::Array(items)) => join_words(string_items(items)),
            _ => Seq::empty(),
        },
    }
}

/// Joins `parts` with single spaces.
pub fn join_with_spaces(parts: &Vec<String>) -> (r: String)
    ensures
        r@ == join_words(strs_view(parts@)),
{
    let ghost all = strs_view(parts@);
    let mut out = String::new();
    let mut i: usize = 0;
    assert(all.subrange(0, 0) =~= Seq::<Seq<char>>::empty());
    while i < parts.len()
        invariant
            i <= parts@.len(),
            all == strs_view(parts@),
            out@ == join_words(all.subrange(0, i as int)),
        decreases parts@.len() - i,
    {
        let ghost before = all.subrange(0, i as int);
        let ghost after = all.subrange(0, i + 1);
        assert(after.drop_last() =~= before);
        assert(after.last() == parts@[i as int]@);
        if i > 0 {
            out.append(" ");
        } else {
            assert(before =~= Seq::<Seq<char>>::empty());
        }
        out.append(parts[i].as_str());
        proof {
            if i == 0 {
                assert(out@ =~= after[0]);
            } else {
                assert(out@ =~= join_words(before) + " "@ + after.last());
            }
        }
        i += 1;
    }
    assert(all.subrange(0, i as int) =~= all);
    out
}

/// Reads the OAuth scope argument.
pub fn arg_scope(args: &Json) -> (r: String)
    ensures
        r@ == scope_arg(args@),
{
    match args.str_member("scope") {
        Some(s) => {
            return owned(s);
        },
        None => {},
    }
    match args.get("scopes") {
        Some(v) => match v {
            Json::Array(items) => {
                let ghost iv = items_view(items@);
                let mut parts: Vec<String> = Vec::new();
                let mut i: usize = 0;
                proof {
                    lemma_items_view_index(items@);
                }
                while i < items.len()
                    invariant
                        i <= items@.len(),
                        iv == items_view(items@),
                        iv.len() == items@.len(),
                        forall|j: int| 0 <= j < items@.len() ==> #[trigger] iv[j] == json_view(items@[j]),
                        strs_view(parts@) == string_items(iv.subrange(0, i as int)),
                    decreases items@.len() - i,
                {
                    let ghost after = iv.subrange(0, i + 1);
                    assert(after.drop_last() =~= iv.subrange(0, i as int));
                    assert(after.last() == json_view(items@[i as int]));
                    match items[i].as_str() {
                        Some(s) => {
                            let ghost before = parts@;
                            let t = owned(s);
                            parts.push(t);
                            assert(strs_view(parts@) =~= strs_view(before).push(s@));
                            assert(strs_view(parts@) =~= string_items(after));
                        },
                        None => {},
                    }
                    i += 1;
                }
                assert(iv.subrange(0, i as int) =~= iv);
                join_with_spaces(&parts)
            },
            _ => String::new(),
        },
        None => String::new(),
    }
}

} // verus!

verus! {

/// What a login needs from its arguments.
pub struct LoginRequest {
    pub authorize_url: String,
    pub token_url: String,
    pub client_id: String,
    pub scope: String,
    /// `loopback` or `scheme`, lower-cased.
    pub redirect_mode: String,
    /// String-valued members of `extraAuthParams`, in their stored order.
    pub extra: Vec<(String, String)>,
}

pub struct LoginRequestV {
    pub authorize_url: Seq<char>,
    pub token_url: Seq<char>,
    pub client_id: Seq<char>,
    pub scope: Seq<char>,
    pub redirect_mode: Seq<char>,
    pub extra: Seq<(Seq<char>, Seq<char>)>,
}

impl View for LoginRequest {
    type V = LoginRequestV;

    open spec fn view(&self) -> LoginRequestV {
        LoginRequestV {
            authorize_url: self.authorize_url@,
            token_url: self.token_url@,
            client_id: self.client_id@,
            scope: self.scope@,
            redirect_mode: self.redirect_mode@,
            extra: pairs_view(self.extra@),
        }
    }
}

/// The string-valued members of an object, as stored.
pub open spec fn string_members(p: Seq<(String, Json)>) -> Seq<(Seq<char>, Seq<char>)>
    decreases p.len(),
{
    if p.len() == 0 {
        Seq::empty()
    } else {
        let rest = string_members(p.drop_last());
        match p.last().1 {
            Json::Str(v) => rest.push((p.last().0@, v@)),
            _ => rest,
        }
    }
}

/// Extra authorize-URL parameters: the string members of `extraAuthParams`.
pub open spec fn extra_params(args: Json) -> Seq<(Seq<char>, Seq<char>)> {
    match json_lookup(args, "extraAuthParams"@) {
        Some(Json::Object(p)) => string_members(p@),
        _ => Seq::empty(),
    }
}

/// The redirect mode argument, lower-cased; `loopback` when absent.
pub open spec fn redirect_mode_arg(args: JsonV) -> Seq<char> {
    ascii_lower(
        match str_member(args, "redirectMode"@) {
            Some(m) => m,
            None => "loopback"@,
        },
    )
}

/// The login request that `args` describe, or the first missing argument.
pub open spec fn login_request_spec(args: Json) -> Result<LoginRequestV, Seq<char>> {
    match endpoint_arg(args@, "authorizeUrl"@, "authorizationEndpoint"@) {
        Err(e) => Err(e),
        Ok(a) => match endpoint_arg(args@, "tokenUrl"@, "tokenEndpoint"@) {
            Err(e) => Err(e),
            Ok(t) => match str_member(args@, "clientId"@) {
                None => Err("clientId required"@),
                Some(c) => Ok(
                    LoginRequestV {
                        authorize_url: a,
                        token_url: t,
                        client_id: c,
                        scope: scope_arg(args@),
                        redirect_mode: redirect_mode_arg(args@),
                        extra: extra_params(args),
                    },
                ),
            },
        },
    }
}

pub open spec fn request_result_view(r: Result<LoginRequest, String>) -> Result<LoginRequestV, Seq<char>> {
    match r {
        Ok(q) => Ok(q@),
        Err(e) => Err(e@),
    }
}

/// Reads the extra authorize-URL parameters.
fn extra_auth_params(args: &Json) -> (r: Vec<(String, String)>)
    ensures
        pairs_view(r@) == extra_params(*args),
{
    let mut out: Vec<(String, String)> = Vec::new();
    match args.get("extraAuthParams") {
        Some(v) => match v {
            Json::Object(p) => {
                let mut i: usize = 0;
                assert(p@.subrange(0, 0) =~= Seq::<(String, Json)>::empty());
                while i < p.len()
                    invariant
                        i <= p@.len(),
                        json_lookup(*args, "extraAuthParams"@) == Some(Json::Object(*p)),
                        pairs_view(out@) == string_members(p@.subrange(0, i as int)),
                    decreases p@.len() - i,
                {
                    let ghost after = p@.subrange(0, i + 1);
                    assert(after.drop_last() =~= p@.subrange(0, i as int));
                    assert(after.last() == p@[i as int]);
                    match &p[i].1 {
                        Json::Str(val) => {
                            let ghost before = out@;
                            out.push((p[i].0.clone(), val.clone()));
                            assert(pairs_view(out@) =~= pairs_view(before).push((p@[i as int].0@, val@)));
                        },
                        _ => {},
                    }
                    i += 1;
                }
                assert(p@.subrange(0, i as int) =~= p@);
            },
            _ => {},
        },
        None => {},
    }
    assert(pairs_view(out@) =~= extra_params(*args)) by {
        if out@.len() == 0 {
            assert(pairs_view(out@) =~= Seq::<(Seq<char>, Seq<char>)>::empty());
        }
    }
    out
}

/// Reads a login request from `args`: both endpoints and the client id are required.
pub fn login_request(args: &Json) -> (r: Result<LoginRequest, String>)
    ensures
        request_result_view(r) == login_request_spec(*args),
{
    let authorize_url = match arg_endpoint(args, "authorizeUrl", "authorizationEndpoint") {
        Ok(a) => a,
        Err(e) => {
            return Err(e);
        },
    };
    let token_url = match arg_endpoint(args, "tokenUrl", "tokenEndpoint") {
        Ok(t) => t,
        Err(e) => {
            return Err(e);
        },
    };
    let client_id = match args.str_member("clientId") {
        Some(c) => owned(c),
        None => {
            return Err(String::from_str("clientId required"));
        },
    };
    let scope = arg_scope(args);
    let mode = match args.str_member("redirectMode") {
        Some(m) => chars_of(m),
        None => {
            let l = chars_of("loopback");
            proof {
                reveal_strlit("loopback");
            }
            l
        },
    };
    let redirect_mode = string_of(&lower_ascii(&mode));
    let extra = extra_auth_params(args);
    Ok(LoginRequest { authorize_url, token_url, client_id, scope, redirect_mode, extra })
}

/// Everything a login checks before it starts: the `auth` permission, the arguments, and the
/// token host.
pub open spec fn prepare_login_spec(perms: Seq<Seq<char>>, hosts: Seq<Seq<char>>, args: Json) -> Result<LoginRequestV, Seq<char>> {
    match permission_check(perms, "auth"@) {
        Err(e) => Err(e),
        Ok(()) => match login_request_spec(args) {
            Err(e) => Err(e),
            Ok(req) => match auth_host_check(hosts, req.token_url) {
                Err(e) => Err(e),
                Ok(()) => Ok(req),
            },
        },
    }
}

/// Checks a login: the `auth` permission, the arguments, then the token host.
pub fn prepare_login(perms: &Vec<String>, hosts: &Vec<String>, args: &Json) -> (r: Result<LoginRequest, String>)
    ensures
        request_result_view(r) == prepare_login_spec(strs_view(perms@), strs_view(hosts@), *args),
{
    match ensure_permission(perms, "auth") {
        Ok(()) => {},
        Err(e) => {
            return Err(e);
        },
    }
    let req = match login_request(args) {
        Ok(q) => q,
        Err(e) => {
            return Err(e);
        },
    };
    match check_auth_host(hosts, req.token_url.as_str()) {
        Ok(()) => Ok(req),
        Err(e) => Err(e),
    }
}

/// Whether a login uses the custom-scheme redirect rather than a loopback listener.
pub fn uses_scheme_redirect(req: &LoginRequest) -> (r: bool)
    ensures
        r == (req@.redirect_mode == "scheme"@),
{
    str_eq(req.redirect_mode.as_str(), "scheme")
}

/// `http://127.0.0.1:<port>/callback`.
pub open spec fn loopback_redirect(port: u16) -> Seq<char> {
    "http://127.0.0.1:"@ + decimal(port as nat) + "/callback"@
}

/// The redirect URI of a loopback listener on `port`.
pub fn loopback_redirect_uri(port: u16) -> (r: String)
    ensures
        r@ == loopback_redirect(port),
{
    let digits = string_of(&decimal_chars(port as u64));
    String::from_str("http://127.0.0.1:").concat(digits.as_str()).concat("/callback")
}

/// The PKCE verifier, its challenge, and the CSRF state of one login.
pub struct PkceSecrets {
    pub verifier: String,
    pub challenge: String,
    pub csrf_state: String,
}

/// Fresh login secrets: a verifier of 48 random bytes, its S256 challenge, and a CSRF state of
/// 24 random bytes, each base64url-encoded.
pub fn new_pkce() -> (r: PkceSecrets)
    ensures
        exists|b: Seq<u8>| b.len() == 48 && r.verifier@ == base64_url_nopad(b),
        r.challenge@ == s256_challenge(r.verifier@),
        exists|b: Seq<u8>| b.len() == 24 && r.csrf_state@ == base64_url_nopad(b),
{
    let verifier = random_url_safe(48);
    let challenge = code_challenge_s256(verifier.as_str());
    let csrf_state = random_url_safe(24);
    PkceSecrets { verifier, challenge, csrf_state }
}

} // verus!

verus! {

/// Query parameters of the authorize URL, in order.
pub open spec fn authorize_params_spec(
    req: LoginRequestV,
    redirect_uri: Seq<char>,
    csrf_state: Seq<char>,
    challenge: Seq<char>,
) -> Seq<(Seq<char>, Seq<char>)> {
    seq![("response_type"@, "code"@), ("client_id"@, req.client_id), ("redirect_uri"@, redirect_uri)]
        + (if req.scope.len() == 0 {
        Seq::empty()
    } else {
        seq![("scope"@, req.scope)]
    }) + seq![
        ("state"@, csrf_state),
        ("code_challenge"@, challenge),
        ("code_challenge_method"@, "S256"@),
    ] + req.extra
}

fn text_pair(k: &str, v: &str) -> (r: (String, String))
    ensures
        r.0@ == k@,
        r.1@ == v@,
{
    (owned(k), owned(v))
}

/// The query parameters of the authorize URL.
pub fn authorize_params(req: &LoginRequest, redirect_uri: &str, csrf_state: &str, challenge: &str) -> (r: Vec<(String, String)>)
    ensures
        pairs_view(r@) == authorize_params_spec(req@, redirect_uri@, csrf_state@, challenge@),
{
    let mut out: Vec<(String, String)> = Vec::new();
    out.push(text_pair("response_type", "code"));
    out.push(text_pair("client_id", req.client_id.as_str()));
    out.push(text_pair("redirect_uri", redirect_uri));
    let ghost head = pairs_view(out@);
    let scope_chars = chars_of(req.scope.as_str());
    if scope_chars.len() > 0 {
        out.push(text_pair("scope", req.scope.as_str()));
    }
    let ghost with_scope = pairs_view(out@);
    out.push(text_pair("state", csrf_state));
    out.push(text_pair("code_challenge", challenge));
    out.push(text_pair("code_challenge_method", "S256"));
    let ghost fixed = pairs_view(out@);
    let mut i: usize = 0;
    while i < req.extra.len()
        invariant
            i <= req.extra@.len(),
            pairs_view(out@) == fixed + pairs_view(req.extra@).subrange(0, i as int),
        decreases req.extra@.len() - i,
    {
        let ghost before = pairs_view(out@);
        out.push((req.extra[i].0.clone(), req.extra[i].1.clone()));
        assert(pairs_view(out@) =~= before.push(pairs_view(req.extra@)[i as int]));
        assert(pairs_view(req.extra@).subrange(0, i + 1) =~= pairs_view(req.extra@).subrange(
            0,
            i as int,
        ).push(pairs_view(req.extra@)[i as int]));
        i += 1;
    }
    proof {
        assert(pairs_view(req.extra@).subrange(0, i as int) =~= pairs_view(req.extra@));
        assert(head =~= seq![
            ("response_type"@, "code"@),
            ("client_id"@, req@.client_id),
            ("redirect_uri"@, redirect_uri@),
        ]);
        assert(with_scope =~= head + (if req@.scope.len() == 0 {
            Seq::empty()
        } else {
            seq![("scope"@, req@.scope)]
        }));
        assert(fixed =~= with_scope + seq![
            ("state"@, csrf_state@),
            ("code_challenge"@, challenge@),
            ("code_challenge_method"@, "S256"@),
        ]);
    }
    out
}

/// The session a login leaves pending until its callback arrives.
pub struct PendingOAuth {
    pub verifier: String,
    pub csrf_state: String,
    pub token_url: String,
    pub client_id: String,
    pub redirect_uri: String,
}

impl PendingOAuth {
    pub fn duplicate(&self) -> (r: PendingOAuth)
        ensures
            r.verifier@ == self.verifier@,
            r.csrf_state@ == self.csrf_state@,
            r.token_url@ == self.token_url@,
            r.client_id@ == self.client_id@,
            r.redirect_uri@ == self.redirect_uri@,
    {
        PendingOAuth {
            verifier: self.verifier.clone(),
            csrf_state: self.csrf_state.clone(),
            token_url: self.token_url.clone(),
            client_id: self.client_id.clone(),
            redirect_uri: self.redirect_uri.clone(),
        }
    }
}

/// A login ready to go: the URL to open, the session to keep, and the answer to the caller.
pub struct LoginStart {
    pub authorize_url: String,
    pub pending: PendingOAuth,
    pub reply: Json,
}

/// `{ ok: true, pending: true, redirectUri, redirectMode }`.
pub open spec fn login_reply_spec(redirect_uri: Seq<char>, mode: Seq<char>) -> JsonV {
    json_obj(
        seq![
            ("ok"@, JsonV::Bool(true)),
            ("pending"@, JsonV::Bool(true)),
            ("redirectUri"@, JsonV::Str(redirect_uri)),
            ("redirectMode"@, JsonV::Str(mode)),
        ],
    )
}

pub fn login_reply(redirect_uri: &str, mode: &str) -> (r: Json)
    ensures
        r@ == login_reply_spec(redirect_uri@, mode@),
{
    let mut o: Vec<(String, Json)> = Vec::new();
    o.push((owned("ok"), Json::Bool(true)));
    o.push((owned("pending"), Json::Bool(true)));
    o.push((owned("redirectUri"), json_string(redirect_uri)));
    o.push((owned("redirectMode"), json_string(mode)));
    let r = object_of(o);
    assert(member_views(o@) =~= seq![
        ("ok"@, JsonV::Bool(true)),
        ("pending"@, JsonV::Bool(true)),
        ("redirectUri"@, JsonV::Str(redirect_uri@)),
        ("redirectMode"@, JsonV::Str(mode@)),
    ]);
    r
}

/// Builds the authorize URL and the pending session of a checked login. It fails only when the
/// authorize URL does not parse.
pub fn finish_login(req: LoginRequest, pkce: PkceSecrets, redirect_uri: String) -> (r: Result<LoginStart, String>)
    ensures
        match url_with_params_spec(
            req@.authorize_url,
            authorize_params_spec(req@, redirect_uri@, pkce.csrf_state@, pkce.challenge@),
        ) {
            Err(e) => r matches Err(m) && m@ == e,
            Ok(u) => r matches Ok(start) && {
                &&& start.authorize_url@ == u
                &&& start.pending.verifier@ == pkce.verifier@
                &&& start.pending.csrf_state@ == pkce.csrf_state@
                &&& start.pending.token_url@ == req@.token_url
                &&& start.pending.client_id@ == req@.client_id
                &&& start.pending.redirect_uri@ == redirect_uri@
                &&& start.reply@ == login_reply_spec(redirect_uri@, req@.redirect_mode)
            },
        },
{
    let params = authorize_params(
        &req,
        redirect_uri.as_str(),
        pkce.csrf_state.as_str(),
        pkce.challenge.as_str(),
    );
    let url = match url_with_params(req.authorize_url.as_str(), &params) {
        Ok(u) => u,
        Err(e) => {
            return Err(e);
        },
    };
    let reply = login_reply(redirect_uri.as_str(), req.redirect_mode.as_str());
    let pending = PendingOAuth {
        verifier: pkce.verifier,
        csrf_state: pkce.csrf_state,
        token_url: req.token_url,
        client_id: req.client_id,
        redirect_uri,
    };
    Ok(LoginStart { authorize_url: url, pending, reply })
}

/// The URL a callback is parsed as: itself when it has a scheme, else a loopback path.
pub open spec fn callback_target(s: Seq<char>) -> Seq<char> {
    if contains_seq(s, "://"@) {
        s
    } else {
        "http://127.0.0.1"@ + s
    }
}

/// The value of the last pair with key `k`.
pub open spec fn last_value(p: Seq<(Seq<char>, Seq<char>)>, k: Seq<char>) -> Option<Seq<char>>
    decreases p.len(),
{
    if p.len() == 0 {
        None
    } else if p.last().0 == k {
        Some(p.last().1)
    } else {
        last_value(p.drop_last(), k)
    }
}

/// `(code, state)` of a callback's query: the last `code` is required, the last `state`
/// defaults to empty.
pub open spec fn callback_pairs_spec(p: Seq<(Seq<char>, Seq<char>)>) -> Result<(Seq<char>, Seq<char>), Seq<char>> {
    match last_value(p, "code"@) {
        None => Err("no code in callback"@),
        Some(c) => Ok(
            (
                c,
                match last_value(p, "state"@) {
                    Some(st) => st,
                    None => Seq::empty(),
                },
            ),
        ),
    }
}

pub open spec fn code_result_view(r: Result<(String, String), String>) -> Result<(Seq<char>, Seq<char>), Seq<char>> {
    match r {
        Ok((c, st)) => Ok((c@, st@)),
        Err(e) => Err(e@),
    }
}

/// Picks `(code, state)` out of a callback's decoded query pairs.
pub fn callback_from_pairs(pairs: &Vec<(String, String)>) -> (r: Result<(String, String), String>)
    ensures
        code_result_view(r) == callback_pairs_spec(pairs_view(pairs@)),
{
    let ghost all = pairs_view(pairs@);
    let mut code: Option<String> = None;
    let mut state: Option<String> = None;
    let mut i: usize = 0;
    assert(all.subrange(0, 0) =~= Seq::<(Seq<char>, Seq<char>)>::empty());
    while i < pairs.len()
        invariant
            i <= pairs@.len(),
            all == pairs_view(pairs@),
            opt_string_view(code) == last_value(all.subrange(0, i as int), "code"@),
            opt_string_view(state) == last_value(all.subrange(0, i as int), "state"@),
        decreases pairs@.len() - i,
    {
        let ghost after = all.subrange(0, i + 1);
        assert(after.drop_last() =~= all.subrange(0, i as int));
        assert(after.last() == (pairs@[i as int].0@, pairs@[i as int].1@));
        proof {
            reveal_strlit("code");
            reveal_strlit("state");
            assert("code"@[0] != "state"@[0]);
        }
        if str_eq(pairs[i].0.as_str(), "code") {
            code = Some(pairs[i].1.clone());
        } else if str_eq(pairs[i].0.as_str(), "state") {
            state = Some(pairs[i].1.clone());
        }
        i += 1;
    }
    assert(all.subrange(0, i as int) =~= all);
    match code {
        None => Err(String::from_str("no code in callback")),
        Some(c) => {
            let st = match state {
                Some(x) => x,
                None => String::new(),
            };
            Ok((c, st))
        },
    }
}

pub open spec fn opt_string_view(o: Option<String>) -> Option<Seq<char>> {
    match o {
        Some(s) => Some(s@),
        None => None,
    }
}

/// `(code, state)` from a callback URL or a loopback request path.
pub fn parse_callback_query(url: &str) -> (r: Result<(String, String), String>)
    ensures
        match url_query_pairs_spec(callback_target(url@)) {
            Err(e) => code_result_view(r) == Err::<(Seq<char>, Seq<char>), Seq<char>>(e),
            Ok(p) => code_result_view(r) == callback_pairs_spec(p),
        },
{
    let u = chars_of(url);
    let sep = chars_of("://");
    proof {
        reveal_strlit("://");
    }
    let pairs = if contains(&u, &sep) {
        url_query_pairs(url)
    } else {
        let full = String::from_str("http://127.0.0.1").concat(url);
        url_query_pairs(full.as_str())
    };
    match pairs {
        Err(e) => Err(e),
        Ok(p) => callback_from_pairs(&p),
    }
}

} // verus!

verus! {

/// What the host does with a custom-scheme callback.
pub enum CallbackStep {
    /// Not a callback this library completes (it has no code, or no login is pending).
    NotHandled,
    /// The state does not match the pending login, which is dropped.
    StateMismatch,
    /// Exchange `code` for tokens under the pending login.
    Exchange { pending: PendingOAuth, code: String },
}

/// Matches a parsed custom-scheme callback with the pending login. A callback without a code
/// leaves the pending login in place; otherwise the pending login is taken.
pub fn scheme_callback_step(parsed: Result<(String, String), String>, pending: &mut Option<PendingOAuth>) -> (r: CallbackStep)
    ensures
        match parsed {
            Err(_) => r is NotHandled && *final(pending) == *old(pending),
            Ok((code, st)) => (*final(pending)) is None && match *old(pending) {
                None => r is NotHandled,
                Some(p) => if st@ == p.csrf_state@ {
                    r matches CallbackStep::Exchange { pending: q, code: c } && q == p && c@
                        == code@
                } else {
                    r is StateMismatch
                },
            },
        },
{
    match parsed {
        Err(_) => CallbackStep::NotHandled,
        Ok((code, st)) => {
            let taken = pending.take();
            match taken {
                None => CallbackStep::NotHandled,
                Some(p) => {
                    if str_eq(st.as_str(), p.csrf_state.as_str()) {
                        CallbackStep::Exchange { pending: p, code }
                    } else {
                        CallbackStep::StateMismatch
                    }
                },
            }
        },
    }
}

/// Matches the request that reached the loopback listener with the pending login: a parse
/// error, a missing login and a state mismatch each fail; the pending login is taken once the
/// request parsed.
pub fn loopback_callback_step(parsed: Result<(String, String), String>, pending: &mut Option<PendingOAuth>) -> (r: Result<(PendingOAuth, String), String>)
    ensures
        match parsed {
            Err(e) => r == Err::<(PendingOAuth, String), String>(e) && *final(pending) == *old(
                pending,
            ),
            Ok((code, st)) => (*final(pending)) is None && match *old(pending) {
                None => r matches Err(m) && m@ == "no pending oauth session"@,
                Some(p) => if st@ == p.csrf_state@ {
                    r matches Ok((q, c)) && q == p && c@ == code@
                } else {
                    r matches Err(m) && m@ == "state mismatch"@
                },
            },
        },
{
    match parsed {
        Err(e) => Err(e),
        Ok((code, st)) => {
            let taken = pending.take();
            match taken {
                None => Err(String::from_str("no pending oauth session")),
                Some(p) => {
                    if str_eq(st.as_str(), p.csrf_state.as_str()) {
                        Ok((p, code))
                    } else {
                        Err(String::from_str("state mismatch"))
                    }
                },
            }
        },
    }
}

/// Form of the authorization-code exchange.
pub open spec fn exchange_form_spec(
    code: Seq<char>,
    redirect_uri: Seq<char>,
    client_id: Seq<char>,
    verifier: Seq<char>,
) -> Seq<(Seq<char>, Seq<char>)> {
    seq![
        ("grant_type"@, "authorization_code"@),
        ("code"@, code),
        ("redirect_uri"@, redirect_uri),
        ("client_id"@, client_id),
        ("code_verifier"@, verifier),
    ]
}

/// The form posted to the token URL to exchange `code`.
pub fn exchange_form(pending: &PendingOAuth, code: &str) -> (r: Vec<(String, String)>)
    ensures
        pairs_view(r@) == exchange_form_spec(
            code@,
            pending.redirect_uri@,
            pending.client_id@,
            pending.verifier@,
        ),
{
    let mut out: Vec<(String, String)> = Vec::new();
    out.push(text_pair("grant_type", "authorization_code"));
    out.push(text_pair("code", code));
    out.push(text_pair("redirect_uri", pending.redirect_uri.as_str()));
    out.push(text_pair("client_id", pending.client_id.as_str()));
    out.push(text_pair("code_verifier", pending.verifier.as_str()));
    assert(pairs_view(out@) =~= exchange_form_spec(
        code@,
        pending.redirect_uri@,
        pending.client_id@,
        pending.verifier@,
    ));
    out
}

/// The form posted to the token URL to refresh the access token.
pub fn refresh_form(refresh_token: &str, client_id: &str) -> (r: Vec<(String, String)>)
    ensures
        pairs_view(r@) == seq![
            ("grant_type"@, "refresh_token"@),
            ("refresh_token"@, refresh_token@),
            ("client_id"@, client_id@),
        ],
{
    let mut out: Vec<(String, String)> = Vec::new();
    out.push(text_pair("grant_type", "refresh_token"));
    out.push(text_pair("refresh_token", refresh_token));
    out.push(text_pair("client_id", client_id));
    assert(pairs_view(out@) =~= seq![
        ("grant_type"@, "refresh_token"@),
        ("refresh_token"@, refresh_token@),
        ("client_id"@, client_id@),
    ]);
    out
}

/// Lifetime a token response grants: its `expires_in` when that is a non-negative integer,
/// else an hour.
pub open spec fn expires_in_of(body: JsonV) -> u64 {
    match member(body, "expires_in"@) {
        Some(v) => match json_as_u64(v) {
            Some(n) => n,
            None => 3600,
        },
        None => 3600,
    }
}

/// What a token response grants.
pub struct TokenGrant {
    pub access_token: String,
    /// Seconds since the epoch at which the access token expires.
    pub expires_at: u64,
    pub refresh_token: Option<String>,
}

/// Reads a token response received at time `now`: the access token is required (else
/// `missing`), the lifetime defaults to an hour, and a new refresh token is optional.
pub fn token_grant(body: &Json, now: u64, missing: &str) -> (r: Result<TokenGrant, String>)
    requires
        now + expires_in_of(body@) <= u64::MAX,
    ensures
        match str_member(body@, "access_token"@) {
            None => r matches Err(m) && m@ == missing@,
            Some(t) => r matches Ok(g) && {
                &&& g.access_token@ == t
                &&& g.expires_at == now + expires_in_of(body@)
                &&& opt_string_view(g.refresh_token) == str_member(body@, "refresh_token"@)
            },
        },
{
    let access_token = match body.str_member("access_token") {
        Some(t) => owned(t),
        None => {
            return Err(owned(missing));
        },
    };
    let expires_in: u64 = match body.get("expires_in") {
        Some(v) => match v.as_u64() {
            Some(n) => n,
            None => 3600,
        },
        None => 3600,
    };
    let refresh_token = match body.str_member("refresh_token") {
        Some(t) => Some(owned(t)),
        None => None,
    };
    Ok(TokenGrant { access_token, expires_at: now + expires_in, refresh_token })
}

/// A cached access token is used while more than 30 seconds of it remain.
pub open spec fn token_fresh(now: u64, expires_at: u64) -> bool {
    now + 30 < expires_at
}

/// What `fresh_cached_token` answers for `cache` at `now`: the cached token while it is
/// fresh, else nothing.
pub open spec fn cached_token_answer(cache: Option<(String, u64)>, now: u64, r: Option<String>) -> bool {
    match cache {
        Some((t, e)) => if token_fresh(now, e) {
            r matches Some(x) && x@ == t@
        } else {
            r is None
        },
        None => r is None,
    }
}

/// The cached access token, when it is still fresh at `now`.
pub fn fresh_cached_token(cache: &Option<(String, u64)>, now: u64) -> (r: Option<String>)
    ensures
        cached_token_answer(*cache, now, r),
{
    match cache {
        Some((t, e)) => {
            if now < *e && *e - now > 30 {
                Some(t.clone())
            } else {
                None
            }
        },
        None => None,
    }
}

/// `{ ok: true, <key>: <value> }` for a string value.
pub open spec fn ok_with_spec(key: Seq<char>, value: JsonV) -> JsonV {
    json_obj(seq![("ok"@, JsonV::Bool(true)), (key, value)])
}

pub fn ok_with(key: &str, value: Json) -> (r: Json)
    ensures
        r@ == ok_with_spec(key@, value@),
{
    let ghost v = value@;
    let mut o: Vec<(String, Json)> = Vec::new();
    o.push((owned("ok"), Json::Bool(true)));
    o.push((owned(key), value));
    let r = object_of(o);
    assert(member_views(o@) =~= seq![("ok"@, JsonV::Bool(true)), (key@, v)]);
    r
}

/// Payload of `auth:changed`: `{ loggedIn }`, with `error` when a login failed.
pub open spec fn auth_changed_spec(logged_in: bool, error: Option<Seq<char>>) -> JsonV {
    match error {
        None => json_obj(seq![("loggedIn"@, JsonV::Bool(logged_in))]),
        Some(e) => json_obj(seq![("loggedIn"@, JsonV::Bool(logged_in)), ("error"@, JsonV::Str(e))]),
    }
}

pub fn auth_changed_payload(logged_in: bool, error: Option<&str>) -> (r: Json)
    ensures
        r@ == auth_changed_spec(
            logged_in,
            match error {
                Some(e) => Some(e@),
                None => None,
            },
        ),
{
    let mut o: Vec<(String, Json)> = Vec::new();
    o.push((owned("loggedIn"), Json::Bool(logged_in)));
    match error {
        Some(e) => {
            o.push((owned("error"), json_string(e)));
            let r = object_of(o);
            assert(member_views(o@) =~= seq![
                ("loggedIn"@, JsonV::Bool(logged_in)),
                ("error"@, JsonV::Str(e@)),
            ]);
            r
        },
        None => {
            let r = object_of(o);
            assert(member_views(o@) =~= seq![("loggedIn"@, JsonV::Bool(logged_in))]);
            r
        },
    }
}

/// Payload of `auth:error`: `{ message }`.
pub fn auth_error_payload(message: &str) -> (r: Json)
    ensures
        r@ == json_obj(seq![("message"@, JsonV::Str(message@))]),
{
    let mut o: Vec<(String, Json)> = Vec::new();
    o.push((owned("message"), json_string(message)));
    let r = object_of(o);
    assert(member_views(o@) =~= seq![("message"@, JsonV::Str(message@))]);
    r
}

/// The key of a `secrets.*` call, after its permission.
pub open spec fn secret_key_spec(perms: Seq<Seq<char>>, args: JsonV) -> Result<Seq<char>, Seq<char>> {
    match permission_check(perms, "secrets"@) {
        Err(e) => Err(e),
        Ok(()) => match str_member(args, "key"@) {
            Some(k) => Ok(k),
            None => Err("key required"@),
        },
    }
}

/// Checks the `secrets` permission and reads the `key` argument.
pub fn secret_key(perms: &Vec<String>, args: &Json) -> (r: Result<String, String>)
    ensures
        text_result_view(r) == secret_key_spec(strs_view(perms@), args@),
{
    match ensure_permission(perms, "secrets") {
        Ok(()) => {},
        Err(e) => {
            return Err(e);
        },
    }
    match args.str_member("key") {
        Some(k) => Ok(owned(k)),
        None => Err(String::from_str("key required")),
    }
}

/// Checks the `secrets` permission and reads the `key` and `value` arguments of `secrets.set`.
pub fn secret_set_args(perms: &Vec<String>, args: &Json) -> (r: Result<(String, String), String>)
    ensures
        match secret_key_spec(strs_view(perms@), args@) {
            Err(e) => r matches Err(m) && m@ == e,
            Ok(k) => match str_member(args@, "value"@) {
                Some(v) => r matches Ok((a, b)) && a@ == k && b@ == v,
                None => r matches Err(m) && m@ == "value required"@,
            },
        },
{
    let key = match secret_key(perms, args) {
        Ok(k) => k,
        Err(e) => {
            return Err(e);
        },
    };
    match args.str_member("value") {
        Some(v) => Ok((key, owned(v))),
        None => Err(String::from_str("value required")),
    }
}

/// What `auth.getAccessToken` does next.
pub enum AccessTokenStep {
    /// Answer with the cached token.
    Cached(String),
    /// Refresh at `token_url` as `client_id`.
    Refresh { token_url: String, client_id: String },
}

/// Decides `auth.getAccessToken`: after the `auth` permission, a fresh cached token is used;
/// otherwise the token endpoint and client id are required and the token host is checked.
pub fn access_token_step(
    perms: &Vec<String>,
    hosts: &Vec<String>,
    args: &Json,
    cache: &Option<(String, u64)>,
    now: u64,
) -> (r: Result<AccessTokenStep, String>)
    ensures
        match permission_check(strs_view(perms@), "auth"@) {
            Err(e) => r matches Err(m) && m@ == e,
            Ok(()) => match cache {
                Some((t, e)) if token_fresh(now, *e) => r matches Ok(AccessTokenStep::Cached(x))
                    && x@ == t@,
                _ => match endpoint_arg(args@, "tokenUrl"@, "tokenEndpoint"@) {
                    Err(e) => r matches Err(m) && m@ == e,
                    Ok(u) => match str_member(args@, "clientId"@) {
                        None => r matches Err(m) && m@
                            == "clientId required to refresh the access token"@,
                        Some(c) => match auth_host_check(strs_view(hosts@), u) {
                            Err(e) => r matches Err(m) && m@ == e,
                            Ok(()) => r matches Ok(
                                AccessTokenStep::Refresh { token_url: tu, client_id: ci },
                            ) && tu@ == u && ci@ == c,
                        },
                    },
                },
            },
        },
{
    match ensure_permission(perms, "auth") {
        Ok(()) => {},
        Err(e) => {
            return Err(e);
        },
    }
    match fresh_cached_token(cache, now) {
        Some(t) => {
            return Ok(AccessTokenStep::Cached(t));
        },
        None => {},
    }
    let token_url = match arg_endpoint(args, "tokenUrl", "tokenEndpoint") {
        Ok(u) => u,
        Err(e) => {
            return Err(e);
        },
    };
    let client_id = match args.str_member("clientId") {
        Some(c) => owned(c),
        None => {
            return Err(String::from_str("clientId required to refresh the access token"));
        },
    };
    match check_auth_host(hosts, token_url.as_str()) {
        Ok(()) => Ok(AccessTokenStep::Refresh { token_url, client_id }),
        Err(e) => Err(e),
    }
}

} // verus!
