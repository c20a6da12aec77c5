use base64::Engine;
use place_downloader::reddit::{RedditManager, UserAgentError, REDDIT_URL, USER_AGENTS, LOGIN_URL};

fn encode(text: &str) -> String {
    base64::engine::general_purpose::URL_SAFE_NO_PAD.encode(text.as_bytes())
}

fn jwt_with_payload(payload: &str) -> String {
    format!("{}.{}.{}", encode("{\"alg\":\"HS256\"}"), encode(payload), "c2ln")
}

#[test]
fn expiry_is_read_from_the_payload() {
    let token = jwt_with_payload("{\"sub\":\"x\",\"exp\":1690000000}");
    assert_eq!(RedditManager::decode_jwt_and_get_expiry(&token), Ok(1690000000));
    assert_eq!(RedditManager::decode_jwt_and_get_expiry(&jwt_with_payload("{\"exp\":-5}")), Ok(-5));
}

#[test]
fn bearer_prefixes_are_ignored() {
    let token = jwt_with_payload("{\"exp\":42}");
    assert_eq!(RedditManager::decode_jwt_and_get_expiry(&format!("Bearer {}", token)), Ok(42));
    assert_eq!(RedditManager::decode_jwt_and_get_expiry(&format!("Bearer Bearer {}", token)), Ok(42));
}

#[test]
fn tokens_without_three_parts_are_malformed() {
    for token in ["", "abc", "a.b", "a.b.c.d", " Bearer a.b.c"] {
        let expected = if token == " Bearer a.b.c" { None } else { Some("Invalid JWT format".to_string()) };
        let got = RedditManager::decode_jwt_and_get_expiry(token);
        match expected {
            Some(message) => assert_eq!(got, Err(message)),
            None => assert!(got.is_err()),
        }
    }
}

#[test]
fn undecodable_payload_is_reported() {
    let got = RedditManager::decode_jwt_and_get_expiry("a.%%%.c").unwrap_err();
    assert!(got.starts_with("Failed to decode payload: "));
    let padded = format!("a.{}=.c", encode("{\"exp\":1}"));
    let got = RedditManager::decode_jwt_and_get_expiry(&padded).unwrap_err();
    assert!(got.starts_with("Failed to decode payload: "));
}

#[test]
fn payload_that_is_not_an_object_is_reported() {
    for payload in ["[1,2]", "not json", "{\"exp\":1"] {
        let got = RedditManager::decode_jwt_and_get_expiry(&jwt_with_payload(payload)).unwrap_err();
        assert!(got.starts_with("Failed to parse JSON payload: "), "{}", got);
    }
}

#[test]
fn missing_or_bad_exp_is_reported() {
    assert_eq!(
        RedditManager::decode_jwt_and_get_expiry(&jwt_with_payload("{\"sub\":\"x\"}")),
        Err("Token does not have an expiry date!".to_string())
    );
    for payload in ["{\"exp\":1.5}", "{\"exp\":\"1\"}", "{\"exp\":18446744073709551615}", "{\"exp\":null}"] {
        assert_eq!(
            RedditManager::decode_jwt_and_get_expiry(&jwt_with_payload(payload)),
            Err("Invalid 'exp' value in payload".to_string())
        );
    }
}

#[test]
fn base64url_decode_decodes_unpadded_url_safe_text() {
    assert_eq!(RedditManager::base64url_decode("aGVsbG8").unwrap(), b"hello".to_vec());
    assert_eq!(RedditManager::base64url_decode("-_8").unwrap(), vec![0xfb, 0xff]);
    assert_eq!(RedditManager::base64url_decode("").unwrap(), Vec::<u8>::new());
    assert!(RedditManager::base64url_decode("aGVsbG8=").is_err());
    assert!(RedditManager::base64url_decode("+/8").is_err());
}

#[test]
fn random_user_agent_comes_from_the_list() {
    let list: Vec<String> = serde_json::from_str(USER_AGENTS).unwrap();
    assert_eq!(list.len(), 52);
    for _ in 0..20 {
        let ua = RedditManager::get_random_ua().unwrap();
        assert!(list.contains(&ua));
    }
}

#[test]
fn initial_headers_carry_origin_and_user_agent() {
    let list: Vec<String> = serde_json::from_str(USER_AGENTS).unwrap();
    let headers = RedditManager::initial_headers();
    assert_eq!(headers.len(), 2);
    assert_eq!(headers[0], ("origin", REDDIT_URL.to_string()));
    assert_eq!(headers[1].0, "user-agent");
    assert!(list.contains(&headers[1].1));
}

#[test]
fn headers_fall_back_to_an_empty_user_agent() {
    let headers = RedditManager::headers_with_user_agent(Err(UserAgentError::EmptyList));
    assert_eq!(headers, vec![("origin", "https://www.reddit.com/".to_string()), ("user-agent", String::new())]);
    let headers = RedditManager::headers_with_user_agent(Ok("Agent/1".to_string()));
    assert_eq!(headers[1], ("user-agent", "Agent/1".to_string()));
    assert_eq!(LOGIN_URL, "https://www.reddit.com/login");
}

#[test]
fn error_messages_carry_the_outside_error_text() {
    let engine = base64::engine::general_purpose::URL_SAFE_NO_PAD;
    let base64_error = engine.decode("%%%").unwrap_err().to_string();
    assert_eq!(
        RedditManager::decode_jwt_and_get_expiry("a.%%%.c"),
        Err(format!("Failed to decode payload: {}", base64_error))
    );
    let json_error = serde_json::from_slice::<std::collections::HashMap<String, serde_json::Value>>(b"[1]")
        .unwrap_err()
        .to_string();
    assert_eq!(
        RedditManager::decode_jwt_and_get_expiry(&jwt_with_payload("[1]")),
        Err(format!("Failed to parse JSON payload: {}", json_error))
    );
}

#[test]
fn only_the_middle_part_decides() {
    for payload in [encode("{\"exp\":7}"), encode("[]"), "%%%".to_string(), encode("{}")] {
        let first = RedditManager::decode_jwt_and_get_expiry(&format!("h1.{}.g1", payload));
        let second = RedditManager::decode_jwt_and_get_expiry(&format!("other.{}.", payload));
        let bearer = RedditManager::decode_jwt_and_get_expiry(&format!("Bearer h1.{}.g1", payload));
        assert_eq!(first, second);
        assert_eq!(first, bearer);
    }
    assert_eq!(
        RedditManager::decode_jwt_and_get_expiry("Bearer x"),
        RedditManager::decode_jwt_and_get_expiry("x")
    );
}
