use base64::Engine;
use http::HeaderMap;
use http::HeaderValue;
use mock_server::auth::base64_decode;
use mock_server::auth::basic_header_accepted;
use mock_server::auth::bearer_header_accepted;
use mock_server::auth::credentials_match;
use mock_server::auth::utf8_text;
use mock_server::auth::validate_api_key_auth;
use mock_server::auth::validate_auth;
use mock_server::auth::validate_aws_auth;
use mock_server::auth::validate_basic_auth;
use mock_server::auth::validate_bearer_auth;
use mock_server::auth::validate_digest_auth;
use mock_server::auth::validate_hawk_auth;
use mock_server::auth::validate_oauth1_auth;
use mock_server::auth::validate_oauth2_auth;
use mock_server::auth::validate_scheme;
use mock_server::headers::header_text;
use mock_server::route::AuthConfig;
use mock_server::route::MockRoute;

fn encode(text: &str) -> String {
    base64::engine::general_purpose::STANDARD.encode(text)
}

fn headers(pairs: &[(&str, &str)]) -> HeaderMap {
    let mut map = HeaderMap::new();
    for (name, value) in pairs {
        let name = http::header::HeaderName::from_bytes(name.as_bytes()).expect("a header name");
        map.append(name, HeaderValue::from_str(value).expect("a header value"));
    }
    map
}

fn authorization(value: &str) -> HeaderMap {
    headers(&[("authorization", value)])
}

fn user(username: &str, password: &str) -> AuthConfig {
    AuthConfig {
        username: Some(username.to_string()),
        password: Some(password.to_string()),
        ..AuthConfig::default()
    }
}

fn token(value: &str) -> AuthConfig {
    AuthConfig { token: Some(value.to_string()), ..AuthConfig::default() }
}

fn guarded(auth_type: Option<&str>, config: Option<AuthConfig>) -> MockRoute {
    MockRoute {
        id: "r".to_string(),
        method: "GET".to_string(),
        path: "/".to_string(),
        status: 200,
        body: "ok".to_string(),
        headers: None,
        auth_type: auth_type.map(|t| t.to_string()),
        auth_config: config,
    }
}

#[test]
fn default_config_has_no_field() {
    let config = AuthConfig::default();
    assert_eq!(config.username, None);
    assert_eq!(config.password, None);
    assert_eq!(config.token, None);
    assert_eq!(config.header, None);
    assert_eq!(config.key, None);
    assert_eq!(config.hawk_algorithm, None);
}

#[test]
fn header_text_reads_the_first_value_whatever_the_case_of_the_name() {
    let map = headers(&[("X-Token", "one"), ("x-token", "two"), ("accept", "*/*")]);
    assert_eq!(header_text(&map, "x-token"), "one");
    assert_eq!(header_text(&map, "X-TOKEN"), "one");
    assert_eq!(header_text(&map, "Accept"), "*/*");
}

#[test]
fn header_text_is_empty_where_there_is_nothing_to_read() {
    let mut map = headers(&[("x-token", "one")]);
    assert_eq!(header_text(&map, "x-other"), "");
    assert_eq!(header_text(&map, ""), "");
    assert_eq!(header_text(&map, "x token"), "");
    assert_eq!(header_text(&map, "x-tok\u{e9}n"), "");
    assert_eq!(header_text(&HeaderMap::new(), "x-token"), "");
    map.insert("x-bytes", HeaderValue::from_bytes(&[0x61, 0xff]).expect("a header value"));
    assert_eq!(header_text(&map, "x-bytes"), "");
    map.insert("x-tab", HeaderValue::from_bytes(b"a\tb").expect("a header value"));
    assert_eq!(header_text(&map, "x-tab"), "a\tb");
}

#[test]
fn header_text_reads_long_names() {
    let long = "a".repeat(100);
    let mut map = HeaderMap::new();
    let name = http::header::HeaderName::from_bytes(long.as_bytes()).expect("a header name");
    map.insert(name, HeaderValue::from_static("v"));
    assert_eq!(header_text(&map, &long), "v");
    assert_eq!(header_text(&map, &long.to_uppercase()), "v");
    assert_eq!(header_text(&map, &"a".repeat(101)), "");
}

#[test]
fn base64_decode_gives_the_text_of_a_payload() {
    assert_eq!(base64_decode("aGVsbG8="), Some("hello".to_string()));
    assert_eq!(base64_decode("dXNlcjpwYXNz"), Some("user:pass".to_string()));
    assert_eq!(base64_decode(""), Some(String::new()));
}

#[test]
fn base64_decode_refuses_what_is_no_payload() {
    assert_eq!(base64_decode("aGVsbG8"), None);
    assert_eq!(base64_decode("aGVs bG8="), None);
    assert_eq!(base64_decode("!!!!"), None);
    assert_eq!(base64_decode("aGVsbG8-"), None);
}

#[test]
fn base64_decode_refuses_bytes_that_are_no_utf8() {
    let payload = base64::engine::general_purpose::STANDARD.encode([0xffu8, 0xfe]);
    assert_eq!(base64_decode(&payload), None);
}

#[test]
fn utf8_text_reads_well_formed_bytes_only() {
    assert_eq!(utf8_text(vec![0x68, 0x69]), Some("hi".to_string()));
    assert_eq!(utf8_text(vec![0xc3, 0xa9]), Some("\u{e9}".to_string()));
    assert_eq!(utf8_text(Vec::new()), Some(String::new()));
    assert_eq!(utf8_text(vec![0xff]), None);
    assert_eq!(utf8_text(vec![0xc3]), None);
}

#[test]
fn credentials_match_joins_user_and_password_with_a_colon() {
    let config = user("alice", "secret");
    assert!(credentials_match(&config, &Some("alice:secret".to_string())));
    assert!(!credentials_match(&config, &Some("alice:secre".to_string())));
    assert!(!credentials_match(&config, &Some("alicesecret".to_string())));
    assert!(!credentials_match(&config, &None));
    assert!(credentials_match(&AuthConfig::default(), &Some(":".to_string())));
    assert!(!credentials_match(&AuthConfig::default(), &Some(String::new())));
}

#[test]
fn basic_accepts_the_matching_credential() {
    let config = user("user", "pass");
    let value = format!("Basic {}", encode("user:pass"));
    assert!(basic_header_accepted(&config, &value));
    assert!(validate_basic_auth(&config, &authorization(&value)));
    assert!(validate_basic_auth(&config, &headers(&[("Authorization", &value)])));
}

#[test]
fn basic_rejects_every_single_character_mutation() {
    let config = user("user", "pass");
    let value = format!("Basic {}", encode("user:pass"));
    let chars: Vec<char> = value.chars().collect();
    for position in 0..chars.len() {
        for replacement in ['A', 'z', '0', '=', ' ', '-'] {
            if chars[position] == replacement {
                continue;
            }
            let mut mutated = chars.clone();
            mutated[position] = replacement;
            let mutated: String = mutated.into_iter().collect();
            assert!(
                !basic_header_accepted(&config, &mutated),
                "accepted {:?}",
                mutated
            );
        }
    }
}

#[test]
fn basic_rejects_a_changed_expectation() {
    let value = format!("Basic {}", encode("user:pass"));
    assert!(!basic_header_accepted(&user("user", "pasS"), &value));
    assert!(!basic_header_accepted(&user("use", "rpass"), &value));
    assert!(!basic_header_accepted(&user("user:", "pass"), &value));
    assert!(!basic_header_accepted(&AuthConfig::default(), &value));
}

#[test]
fn basic_rejects_what_it_cannot_decode() {
    let config = user("user", "pass");
    assert!(!basic_header_accepted(&config, "Basic not base64"));
    assert!(!basic_header_accepted(&config, "Basic "));
    assert!(!basic_header_accepted(&config, ""));
    assert!(!basic_header_accepted(&config, &format!("basic {}", encode("user:pass"))));
    assert!(!basic_header_accepted(&config, &format!("Basic  {}", encode("user:pass"))));
    assert!(!validate_basic_auth(&config, &HeaderMap::new()));
}

#[test]
fn basic_takes_absent_fields_as_empty() {
    let value = format!("Basic {}", encode(":"));
    assert!(basic_header_accepted(&AuthConfig::default(), &value));
    let only_user = AuthConfig { username: Some("u".to_string()), ..AuthConfig::default() };
    assert!(basic_header_accepted(&only_user, &format!("Basic {}", encode("u:"))));
}

#[test]
fn basic_compares_text_beyond_ascii() {
    let config = user("ren\u{e9}e", "p\u{e4}ss");
    assert!(basic_header_accepted(&config, &format!("Basic {}", encode("ren\u{e9}e:p\u{e4}ss"))));
    assert!(!basic_header_accepted(&config, &format!("Basic {}", encode("renee:pass"))));
}

#[test]
fn bearer_accepts_exactly_the_prefix_and_the_token() {
    let config = token("abc123");
    assert!(bearer_header_accepted(&config, "Bearer abc123"));
    assert!(!bearer_header_accepted(&config, "bearer abc123"));
    assert!(!bearer_header_accepted(&config, "BEARER abc123"));
    assert!(!bearer_header_accepted(&config, "Bearer abc1234"));
    assert!(!bearer_header_accepted(&config, "Bearer abc12"));
    assert!(!bearer_header_accepted(&config, "Bearer  abc123"));
    assert!(!bearer_header_accepted(&config, "Bearer ABC123"));
    assert!(!bearer_header_accepted(&config, "Bearerabc123"));
    assert!(!bearer_header_accepted(&config, ""));
    assert!(validate_bearer_auth(&config, &authorization("Bearer abc123")));
    assert!(!validate_bearer_auth(&config, &authorization("bearer abc123")));
    assert!(!validate_bearer_auth(&config, &HeaderMap::new()));
}

#[test]
fn bearer_takes_an_absent_token_as_empty() {
    assert!(bearer_header_accepted(&AuthConfig::default(), "Bearer "));
    assert!(!bearer_header_accepted(&AuthConfig::default(), "Bearer x"));
    assert!(!bearer_header_accepted(&AuthConfig::default(), "Bearer"));
}

#[test]
fn api_key_reads_the_default_header() {
    let config = AuthConfig { key: Some("k-1".to_string()), ..AuthConfig::default() };
    assert!(validate_api_key_auth(&config, &headers(&[("x-api-key", "k-1")])));
    assert!(validate_api_key_auth(&config, &headers(&[("X-API-Key", "k-1")])));
    assert!(!validate_api_key_auth(&config, &headers(&[("x-api-key", "K-1")])));
    assert!(!validate_api_key_auth(&config, &headers(&[("x-api-key", "k-1 ")])));
    assert!(!validate_api_key_auth(&config, &headers(&[("x-key", "k-1")])));
    assert!(!validate_api_key_auth(&config, &HeaderMap::new()));
}

#[test]
fn api_key_header_name_is_case_insensitive_and_value_exact() {
    let request = headers(&[("x-custom-auth", "Secret")]);
    for name in ["X-Custom-Auth", "x-custom-auth", "X-CUSTOM-AUTH"] {
        let config = AuthConfig {
            header: Some(name.to_string()),
            key: Some("Secret".to_string()),
            ..AuthConfig::default()
        };
        assert!(validate_api_key_auth(&config, &request));
        let wrong = AuthConfig { key: Some("secret".to_string()), ..config };
        assert!(!validate_api_key_auth(&wrong, &request));
    }
}

#[test]
fn api_key_takes_a_missing_header_as_empty() {
    assert!(validate_api_key_auth(&AuthConfig::default(), &HeaderMap::new()));
    let empty_key = AuthConfig { key: Some(String::new()), ..AuthConfig::default() };
    assert!(validate_api_key_auth(&empty_key, &HeaderMap::new()));
    let bad_name = AuthConfig {
        header: Some("not a name".to_string()),
        key: Some("k".to_string()),
        ..AuthConfig::default()
    };
    assert!(!validate_api_key_auth(&bad_name, &headers(&[("x-api-key", "k")])));
}

#[test]
fn prefix_schemes_look_at_the_scheme_word_only() {
    let config = AuthConfig::default();
    assert!(validate_digest_auth(&config, &authorization("Digest anything")));
    assert!(!validate_digest_auth(&config, &authorization("digest anything")));
    assert!(!validate_digest_auth(&config, &authorization("Digest")));
    assert!(validate_oauth1_auth(&config, &authorization("OAuth oauth_nonce=1")));
    assert!(!validate_oauth1_auth(&config, &authorization("OAuth2 x")));
    assert!(!validate_oauth1_auth(&config, &HeaderMap::new()));
    assert!(validate_aws_auth(&config, &authorization("AWS4-HMAC-SHA256 Credential=x")));
    assert!(validate_aws_auth(&config, &authorization("AWS4-HMAC-SHA256")));
    assert!(!validate_aws_auth(&config, &authorization("AWS4-HMAC-SHA1")));
    assert!(validate_hawk_auth(&config, &authorization("Hawk id=\"x\"")));
    assert!(!validate_hawk_auth(&config, &authorization("Hawkid")));
}

#[test]
fn oauth2_is_bearer() {
    let config = token("t");
    assert!(validate_oauth2_auth(&config, &authorization("Bearer t")));
    assert!(!validate_oauth2_auth(&config, &authorization("bearer t")));
    assert!(!validate_oauth2_auth(&config, &authorization("Bearer u")));
}

#[test]
fn route_without_scheme_needs_no_authorization_header() {
    assert!(validate_auth(&guarded(None, None), &HeaderMap::new()));
    assert!(validate_auth(&guarded(Some("none"), None), &HeaderMap::new()));
    assert!(validate_auth(&guarded(Some("none"), Some(token("t"))), &HeaderMap::new()));
    assert!(validate_auth(&guarded(None, Some(token("t"))), &HeaderMap::new()));
}

#[test]
fn scheme_without_config_lets_everything_through() {
    for tag in ["basic", "bearer", "api_key", "digest", "oauth1", "oauth2", "aws", "hawk"] {
        assert!(validate_auth(&guarded(Some(tag), None), &HeaderMap::new()));
        assert!(validate_scheme(tag, &None, &HeaderMap::new()));
    }
}

#[test]
fn unknown_scheme_lets_everything_through() {
    assert!(validate_auth(&guarded(Some("kerberos"), Some(token("t"))), &HeaderMap::new()));
    assert!(validate_auth(&guarded(Some("Basic"), Some(user("u", "p"))), &HeaderMap::new()));
    assert!(validate_auth(&guarded(Some(""), Some(token("t"))), &HeaderMap::new()));
}

#[test]
fn scheme_tags_select_their_check() {
    let none = HeaderMap::new();
    assert!(!validate_auth(&guarded(Some("basic"), Some(user("u", "p"))), &none));
    assert!(!validate_auth(&guarded(Some("bearer"), Some(token("t"))), &none));
    assert!(!validate_auth(&guarded(Some("oauth2"), Some(token("t"))), &none));
    assert!(!validate_auth(&guarded(Some("digest"), Some(AuthConfig::default())), &none));
    assert!(!validate_auth(&guarded(Some("oauth1"), Some(AuthConfig::default())), &none));
    assert!(!validate_auth(&guarded(Some("aws"), Some(AuthConfig::default())), &none));
    assert!(!validate_auth(&guarded(Some("hawk"), Some(AuthConfig::default())), &none));
    let key = AuthConfig { key: Some("k".to_string()), ..AuthConfig::default() };
    assert!(!validate_auth(&guarded(Some("api_key"), Some(key.clone())), &none));

    let basic = authorization(&format!("Basic {}", encode("u:p")));
    assert!(validate_auth(&guarded(Some("basic"), Some(user("u", "p"))), &basic));
    assert!(!validate_auth(&guarded(Some("bearer"), Some(token("t"))), &basic));
    let bearer = authorization("Bearer t");
    assert!(validate_auth(&guarded(Some("bearer"), Some(token("t"))), &bearer));
    assert!(validate_auth(&guarded(Some("oauth2"), Some(token("t"))), &bearer));
    assert!(validate_auth(&guarded(Some("api_key"), Some(key)), &headers(&[("x-api-key", "k")])));
    assert!(validate_auth(
        &guarded(Some("digest"), Some(AuthConfig::default())),
        &authorization("Digest x")
    ));
    assert!(validate_auth(
        &guarded(Some("oauth1"), Some(AuthConfig::default())),
        &authorization("OAuth x")
    ));
    assert!(validate_auth(
        &guarded(Some("aws"), Some(AuthConfig::default())),
        &authorization("AWS4-HMAC-SHA256 x")
    ));
    assert!(validate_auth(
        &guarded(Some("hawk"), Some(AuthConfig::default())),
        &authorization("Hawk x")
    ));
}
