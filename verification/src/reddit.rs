//! What the downloader reads from Reddit and sends to it: the browser
//! identity it presents, the expiry of a JWT, and the constants of the site.

use vstd::prelude::*;
use vstd::utf8::encode_utf8;

use crate::bindings::{
    base64url_nopad_decoded, decode_base64url, json_object_members, json_string_array,
    parse_object_members, parse_string_array, random_index,
};
use crate::text::{split_on, strip_prefix_repeatedly};
use vstd::string::to_string_from_display_ensures;
use crate::text::{copy_range, split_ranges, strip_prefixes_in};

verus! {

/// The front page of Reddit.
pub const REDDIT_URL: &'static str = "https://www.reddit.com/";

/// The login page of Reddit.
pub const LOGIN_URL: &'static str = "https://www.reddit.com/login";

/// The browser identities to choose from, as a JSON array of strings.
pub const USER_AGENTS: &'static str = r#"[
    "Mozilla/5.0 (Windows NT 10.0; Win64; x64) AppleWebKit/537.36 (KHTML, like Gecko) Chrome/114.0.0.0 Safari/537.36",
    "Mozilla/5.0 (Macintosh; Intel Mac OS X 10_15_7) AppleWebKit/537.36 (KHTML, like Gecko) Chrome/114.0.0.0 Safari/537.36",
    "Mozilla/5.0 (Windows NT 10.0; Win64; x64; rv:109.0) Gecko/20100101 Firefox/115.0",
    "Mozilla/5.0 (Windows NT 10.0; Win64; x64) AppleWebKit/537.36 (KHTML, like Gecko) Chrome/115.0.0.0 Safari/537.36",
    "Mozilla/5.0 (X11; Linux x86_64) AppleWebKit/537.36 (KHTML, like Gecko) Chrome/114.0.0.0 Safari/537.36",
    "Mozilla/5.0 (X11; Linux x86_64; rv:109.0) Gecko/20100101 Firefox/115.0",
    "Mozilla/5.0 (Windows NT 10.0; Win64; x64; rv:109.0) Gecko/20100101 Firefox/114.0",
    "Mozilla/5.0 (Macintosh; Intel Mac OS X 10_15_7) AppleWebKit/537.36 (KHTML, like Gecko) Chrome/115.0.0.0 Safari/537.36",
    "Mozilla/5.0 (Macintosh; Intel Mac OS X 10_15_7) AppleWebKit/605.1.15 (KHTML, like Gecko) Version/16.5.1 Safari/605.1.15",
    "Mozilla/5.0 (Macintosh; Intel Mac OS X 10.15; rv:109.0) Gecko/20100101 Firefox/115.0",
    "Mozilla/5.0 (X11; Linux x86_64; rv:109.0) Gecko/20100101 Firefox/114.0",
    "Mozilla/5.0 (Windows NT 10.0; Win64; x64) AppleWebKit/537.36 (KHTML, like Gecko) Chrome/114.0.0.0 Safari/537.36 Edg/114.0.1823.67",
    "Mozilla/5.0 (Windows NT 10.0; rv:109.0) Gecko/20100101 Firefox/115.0",
    "Mozilla/5.0 (Windows NT 10.0; Win64; x64) AppleWebKit/537.36 (KHTML, like Gecko) Chrome/115.0.0.0 Safari/537.36 Edg/114.0.1823.82",
    "Mozilla/5.0 (X11; Ubuntu; Linux x86_64; rv:109.0) Gecko/20100101 Firefox/115.0",
    "Mozilla/5.0 (Windows NT 10.0; Win64; x64) AppleWebKit/537.36 (KHTML, like Gecko) Chrome/109.0.0.0 Safari/537.36",
    "Mozilla/5.0 (Macintosh; Intel Mac OS X 10_15_7) AppleWebKit/605.1.15 (KHTML, like Gecko) Version/16.5.2 Safari/605.1.15",
    "Mozilla/5.0 (Macintosh; Intel Mac OS X 10.15; rv:109.0) Gecko/20100101 Firefox/114.0",
    "Mozilla/5.0 (X11; Linux x86_64; rv:102.0) Gecko/20100101 Firefox/102.0",
    "Mozilla/5.0 (X11; Linux x86_64) AppleWebKit/537.36 (KHTML, like Gecko) Chrome/115.0.0.0 Safari/537.36",
    "Mozilla/5.0 (Windows NT 10.0; Win64; x64) AppleWebKit/537.36 (KHTML, like Gecko) Chrome/115.0.0.0 Safari/537.36 Edg/115.0.1901.183",
    "Mozilla/5.0 (Windows NT 10.0; rv:114.0) Gecko/20100101 Firefox/114.0",
    "Mozilla/5.0 (Windows NT 10.0; Win64; x64; rv:102.0) Gecko/20100101 Firefox/102.0",
    "Mozilla/5.0 (Windows NT 10.0; Win64; x64) AppleWebKit/537.36 (KHTML, like Gecko) Chrome/113.0.0.0 Safari/537.36 OPR/99.0.0.0",
    "Mozilla/5.0 (Windows NT 10.0; Win64; x64) AppleWebKit/537.36 (KHTML, like Gecko) Chrome/114.0.0.0 Safari/537.36 Edg/114.0.1823.58",
    "Mozilla/5.0 (Windows NT 10.0; Win64; x64) AppleWebKit/537.36 (KHTML, like Gecko) Chrome/113.0.0.0 Safari/537.36",
    "Mozilla/5.0 (Windows NT 10.0; Win64; x64) AppleWebKit/537.36 (KHTML, like Gecko) Chrome/114.0.0.0 Safari/537.36 Edg/114.0.1823.79",
    "Mozilla/5.0 (Macintosh; Intel Mac OS X 10_15_7) AppleWebKit/605.1.15 (KHTML, like Gecko) Version/16.5 Safari/605.1.15",
    "Mozilla/5.0 (X11; Linux x86_64) AppleWebKit/537.36 (KHTML, like Gecko) Chrome/77.0.3865.75 Safari/537.36",
    "Mozilla/5.0 (X11; Ubuntu; Linux x86_64; rv:109.0) Gecko/20100101 Firefox/114.0",
    "Mozilla/5.0 (Macintosh; Intel Mac OS X 10_15_7) AppleWebKit/537.36 (KHTML, like Gecko) Chrome/113.0.0.0 Safari/537.36",
    "Mozilla/5.0 (Windows NT 10.0; Win64; x64) AppleWebKit/537.36 (KHTML, like Gecko) Chrome/114.0.0.0 Safari/537.36 OPR/100.0.0.0",
    "Mozilla/5.0 (Windows NT 10.0; Win64; x64; rv:109.0) Gecko/20100101 Firefox/116.0",
    "Mozilla/5.0 (Windows NT 10.0; Win64; x64) AppleWebKit/537.36 (KHTML, like Gecko) Chrome/111.0.0.0 Safari/537.36",
    "Mozilla/5.0 (X11; CrOS x86_64 14541.0.0) AppleWebKit/537.36 (KHTML, like Gecko) Chrome/114.0.0.0 Safari/537.36",
    "Mozilla/5.0 (Macintosh; Intel Mac OS X 10_15_7) AppleWebKit/605.1.15 (KHTML, like Gecko) Version/16.3 Safari/605.1.15",
    "Mozilla/5.0 (Macintosh; Intel Mac OS X 10_15_7) AppleWebKit/605.1.15 (KHTML, like Gecko) Version/16.4 Safari/605.1.15",
    "Mozilla/5.0 (Windows NT 10.0; rv:102.0) Gecko/20100101 Firefox/102.0",
    "Mozilla/5.0 (Windows NT 10.0; WOW64; x64) AppleWebKit/537.36 (KHTML, like Gecko) Chrome/113.0.5666.197 Safari/537.36",
    "Mozilla/5.0 (Macintosh; Intel Mac OS X 10_15_7) AppleWebKit/605.1.15 (KHTML, like Gecko) Version/16.2 Safari/605.1.15",
    "Mozilla/5.0 (Macintosh; Intel Mac OS X 10_15_2) AppleWebKit/537.36 (KHTML, like Gecko) Chrome/79.0.3945.88 Safari/537.36",
    "Mozilla/5.0 (Macintosh; Intel Mac OS X 10_15_7) AppleWebKit/537.36 (KHTML, like Gecko) Chrome/112.0.0.0 Safari/537.36",
    "Mozilla/5.0 (Macintosh; Intel Mac OS X 10_15_7) AppleWebKit/605.1.15 (KHTML, like Gecko) Version/15.6.1 Safari/605.1.15",
    "Mozilla/5.0 (Windows NT 10.0; Win64; x64) AppleWebKit/537.36 (KHTML, like Gecko) Chrome/99.0.4844.51 Safari/537.36",
    "Mozilla/5.0 (X11; Linux x86_64) AppleWebKit/537.36 (KHTML, like Gecko) Chrome/113.0.0.0 Safari/537.36",
    "Mozilla/5.0 (Windows NT 10.0; Win64; x64) AppleWebKit/537.36 (KHTML, like Gecko) Chrome/108.0.0.0 Safari/537.36",
    "Mozilla/5.0 (Windows NT 10.0; Win64; x64) AppleWebKit/537.36 (KHTML, like Gecko) Chrome/112.0.0.0 Safari/537.36",
    "Mozilla/5.0 (Windows NT 10.0; Win64; x64) AppleWebKit/537.36 (KHTML, like Gecko) Chrome/114.0.0.0 Safari/537.36 Edg/114.0.1823.86",
    "Mozilla/5.0 (X11; Linux x86_64) AppleWebKit/537.36 (KHTML, like Gecko) Chrome/112.0.0.0 Safari/537.36",
    "Mozilla/5.0 (Windows NT 10.0; Win64; x64; rv:109.0) Gecko/20100101 Firefox/113.0",
    "Mozilla/5.0 (Windows NT 10.0; Win64; x64) AppleWebKit/537.36 (KHTML, like Gecko) Chrome/112.0.0.0 YaBrowser/23.5.4.674 Yowser/2.5 Safari/537.36",
    "Mozilla/5.0 (Windows NT 10.0; Win64; x64) AppleWebKit/537.36 (KHTML, like Gecko) Chrome/112.0.0.0 YaBrowser/23.5.4.674 Yowser/2.5 Safari/537.36"
  ]"#;

/// The operations on Reddit that the downloader performs.
pub struct RedditManager;

/// Why no browser identity could be chosen.
#[derive(PartialEq, Eq, Structural, Debug)]
pub enum UserAgentError {
    /// `USER_AGENTS` is not a JSON array of strings.
    UnreadableList,
    /// `USER_AGENTS` is an empty array.
    EmptyList,
}

/// The parts of a JWT: its bytes, after every leading `Bearer ` is gone,
/// split at each dot.
pub open spec fn jwt_parts(token: Seq<u8>) -> Seq<Seq<u8>> {
    split_on(strip_prefix_repeatedly(token, encode_utf8("Bearer "@)), '.' as u8)
}

/// The `exp` claim that the middle part of a JWT holds, or the message that
/// says why there is none.
pub open spec fn payload_expiry(payload: Seq<u8>) -> Result<i64, Seq<char>> {
    match base64url_nopad_decoded(payload) {
        Err(text) => Err("Failed to decode payload: "@ + text),
        Ok(json) => match json_object_members(json) {
            Err(text) => Err("Failed to parse JSON payload: "@ + text),
            Ok(members) => if !members.contains_key("exp"@) {
                Err("Token does not have an expiry date!"@)
            } else {
                match members["exp"@] {
                    None => Err("Invalid 'exp' value in payload"@),
                    Some(n) => Ok(n),
                }
            },
        },
    }
}

/// The `exp` claim of the JWT with these bytes, or the message that says why
/// there is none: a token that is not three parts joined by dots is
/// malformed; otherwise its middle part decides.
pub open spec fn jwt_expiry(token: Seq<u8>) -> Result<i64, Seq<char>> {
    let parts = jwt_parts(token);
    if parts.len() != 3 {
        Err("Invalid JWT format"@)
    } else {
        payload_expiry(parts[1])
    }
}

/// The expiry that `decode_jwt_and_get_expiry` gives for a token with these
/// bytes, with 0 in place of every error.
pub open spec fn expiry_or_zero(token: Seq<u8>) -> i64 {
    match jwt_expiry(token) {
        Ok(n) => n,
        Err(_) => 0,
    }
}

/// The text of an expiry result.
pub open spec fn expiry_text(expiry: Result<i64, String>) -> Result<i64, Seq<char>> {
    match expiry {
        Ok(n) => Ok(n),
        Err(m) => Err(m@),
    }
}

impl RedditManager {
    /// Chooses one of the browser identities of `USER_AGENTS` at random.
    pub fn get_random_ua() -> (user_agent: Result<String, UserAgentError>)
        ensures
            match json_string_array(USER_AGENTS@) {
                None => user_agent == Err::<String, UserAgentError>(UserAgentError::UnreadableList),
                Some(list) => if list.len() == 0 {
                    user_agent == Err::<String, UserAgentError>(UserAgentError::EmptyList)
                } else {
                    user_agent matches Ok(ua) && list.contains(ua@)
                },
            },
    {
        match parse_string_array(USER_AGENTS) {
            Err(_) => Err(UserAgentError::UnreadableList),
            Ok(list) => {
                if list.len() == 0 {
                    Err(UserAgentError::EmptyList)
                } else {
                    let index = random_index(list.len());
                    let chosen = list[index].clone();
                    proof {
                        let names = list@.map_values(|s: String| s@);
                        assert(names[index as int] == chosen@);
                    }
                    Ok(chosen)
                }
            }
        }
    }

    /// The headers that every request starts with: the origin, then the
    /// browser identity that was drawn, empty where none could be drawn.
    pub fn headers_with_user_agent(user_agent: Result<String, UserAgentError>) -> (headers: Vec<
        (&'static str, String),
    >)
        ensures
            headers@.len() == 2,
            headers@[0].0@ == "origin"@,
            headers@[0].1@ == REDDIT_URL@,
            headers@[1].0@ == "user-agent"@,
            headers@[1].1@ == match user_agent {
                Ok(ua) => ua@,
                Err(_) => Seq::<char>::empty(),
            },
    {
        let ua = match user_agent {
            Ok(ua) => ua,
            Err(_) => "".to_owned(),
        };
        proof {
            reveal_strlit("");
        }
        let mut headers: Vec<(&'static str, String)> = Vec::new();
        headers.push(("origin", REDDIT_URL.to_owned()));
        headers.push(("user-agent", ua));
        headers
    }

    /// The headers that every request starts with, with a browser identity
    /// drawn at random.
    pub fn initial_headers() -> (headers: Vec<(&'static str, String)>)
        ensures
            headers@.len() == 2,
            headers@[0].0@ == "origin"@,
            headers@[0].1@ == REDDIT_URL@,
            headers@[1].0@ == "user-agent"@,
            match json_string_array(USER_AGENTS@) {
                Some(list) if list.len() > 0 => list.contains(headers@[1].1@),
                _ => headers@[1].1@ == Seq::<char>::empty(),
            },
    {
        Self::headers_with_user_agent(Self::get_random_ua())
    }

    /// Decodes unpadded URL-safe base64.
    pub fn base64url_decode(input_str: &str) -> (decoded: Result<Vec<u8>, base64::DecodeError>)
        ensures
            match base64url_nopad_decoded(encode_utf8(input_str@)) {
                Ok(bytes) => decoded matches Ok(v) && v@ == bytes,
                Err(text) => decoded matches Err(e) && forall|shown: String|
                    #[trigger] to_string_from_display_ensures::<base64::DecodeError>(&e, shown)
                        ==> shown@ == text,
            },
    {
        decode_base64url(input_str.as_bytes())
    }

    /// The `exp` claim of a JWT (an optional `Bearer ` prefix allowed), or a
    /// message that says why there is none.
    pub fn decode_jwt_and_get_expiry(jwt_token: &str) -> (expiry: Result<i64, String>)
        ensures
            expiry_text(expiry) == jwt_expiry(encode_utf8(jwt_token@)),
    {
        let bytes = jwt_token.as_bytes();
        let start = strip_prefixes_in(bytes, 0, bytes.len(), "Bearer ".as_bytes());
        let dot: u8 = '.' as u8;
        let parts = split_ranges(bytes, start, bytes.len(), dot);
        proof {
            assert(bytes@.subrange(0, bytes@.len() as int) =~= bytes@);
        }
        if parts.len() != 3 {
            return Err("Invalid JWT format".to_owned());
        }
        let (a, b) = parts[1];
        let payload = copy_range(bytes, a, b);
        match decode_base64url(payload.as_slice()) {
            Err(e) => {
                let mut message = "Failed to decode payload: ".to_owned();
                let detail = e.to_string();
                message.append(detail.as_str());
                Err(message)
            },
            Ok(decoded) => match parse_object_members(decoded.as_slice()) {
                Err(e) => {
                    let mut message = "Failed to parse JSON payload: ".to_owned();
                    let detail = e.to_string();
                    message.append(detail.as_str());
                    Err(message)
                },
                Ok(members) => Self::member_exp(&members, Ghost(json_object_members(decoded@)->Ok_0)),
            },
        }
    }
}

impl RedditManager {
    /// The `exp` member among the listed members of a payload.
    fn member_exp(
        members: &Vec<(String, Option<i64>)>,
        Ghost(object): Ghost<Map<Seq<char>, Option<i64>>>,
    ) -> (expiry: Result<i64, String>)
        requires
            crate::bindings::lists_members(members@, object),
        ensures
            !object.contains_key("exp"@) ==> (expiry matches Err(m) && m@
                == "Token does not have an expiry date!"@),
            object.contains_key("exp"@) && object["exp"@] is None ==> (expiry matches Err(m) && m@
                == "Invalid 'exp' value in payload"@),
            object.contains_key("exp"@) && object["exp"@] is Some ==> expiry == Ok::<i64, String>(
                object["exp"@]->0,
            ),
    {
        let key = "exp".to_owned();
        let mut i: usize = 0;
        while i < members.len()
            invariant
                i <= members@.len(),
                key@ == "exp"@,
                crate::bindings::lists_members(members@, object),
                forall|j: int| 0 <= j < i ==> (#[trigger] members@[j]).0@ != "exp"@,
            decreases members@.len() - i,
        {
            if members[i].0 == key {
                assert(members@[i as int].0@ == "exp"@);
                return match members[i].1 {
                    Some(n) => Ok(n),
                    None => Err("Invalid 'exp' value in payload".to_owned()),
                };
            }
            i = i + 1;
        }
        proof {
            if object.contains_key("exp"@) {
                let j = choose|j: int| 0 <= j < members@.len() && (#[trigger] members@[j]).0@ == "exp"@;
                assert(members@[j].0@ != "exp"@);
            }
        }
        Err("Token does not have an expiry date!".to_owned())
    }
}

} // verus!
