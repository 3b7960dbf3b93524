//! The authenticated session: credential extraction from the landing
//! page, signed request assembly, and the parsed browse step.
//!
//! Everything here computes on plain values. Fetching the landing page and
//! posting the requests is transport work and stays outside the library;
//! callers hand in the raw bodies that came back.

use vstd::prelude::*;

use crate::extract::ContinuationRule;
use crate::extract::get_continuation;
use crate::extract::walk;
use crate::json::JsonValue;
use crate::json::json_parse_ok;
use crate::json::json_tree_of;
use crate::json::parse_json;
use crate::sign::sign;
use crate::sign::spec_signature;
use crate::types::Continuation;
use crate::types::YoutubeMusicError;
use crate::utils::StringUtils;
use crate::utils::contains_str;
use crate::utils::spec_between;
use crate::utils::spec_contains;

verus! {

/// The origin string: both the fixed request host and part of every
/// signed message.
pub fn yt_domain() -> (r: &'static str)
    ensures
        r@ == "https://music.youtube.com"@,
{
    "https://music.youtube.com"
}

/// An account's view as a character sequence.
pub open spec fn account_view(a: Option<String>) -> Option<Seq<char>> {
    match a {
        Some(id) => Some(id@),
        None => None,
    }
}

/// The JSON request body: the client context, the optional account
/// scope, and optionally one key/parameter pair.
pub open spec fn spec_request_body(
    version: Seq<char>,
    account: Option<Seq<char>>,
    pair: Option<(Seq<char>, Seq<char>)>,
) -> Seq<char> {
    let head = "{\"context\":{\"client\":{\"clientName\":\"WEB_REMIX\",\"clientVersion\":\""@
        + version + "\"}"@;
    let scoped = match account {
        Some(id) => head + ",\"user\":{\"onBehalfOfUser\":\""@ + id + "\"}"@,
        None => head,
    };
    match pair {
        Some(kv) => scoped + "},\""@ + kv.0 + "\":\""@ + kv.1 + "\"}"@,
        None => scoped + "}}"@,
    }
}

/// The authenticated identity. Immutable once constructed: no method of
/// the library takes it mutably, its fields are exposed read-only in
/// practice, and re-authentication builds a new value rather than
/// rewriting an old one.
#[derive(Debug)]
pub struct YoutubeMusicInstance {
    pub sapisid: String,
    pub innertube_api_key: String,
    pub client_version: String,
    pub cookies: String,
    pub account_id: Option<String>,
}

impl YoutubeMusicInstance {
    /// All credential fields carry text.
    pub open spec fn wf(self) -> bool {
        self.sapisid@.len() > 0 && self.innertube_api_key@.len() > 0
            && self.client_version@.len() > 0 && self.cookies@.len() > 0
    }

    /// Builds the session from the landing page body and the cookie
    /// string. The login redirect is detected before any extraction; each
    /// extraction failure carries what is needed to diagnose it.
    pub fn new(response: String, cookies: String, account_id: Option<String>) -> (r: Result<
        Self,
        YoutubeMusicError,
    >)
        ensures
            ({
                let signin = spec_contains(
                    response@,
                    "<base href=\"https://accounts.google.com/v3/signin/\">"@,
                ) || spec_contains(response@, "<base href=\"https://consent.youtube.com/\""@);
                let secret = spec_between(cookies@, "SAPISID="@, ";"@);
                let key = spec_between(response@, "INNERTUBE_API_KEY\":\""@, "\""@);
                let version = spec_between(response@, "INNERTUBE_CLIENT_VERSION\":\""@, "\""@);
                match r {
                    Ok(s) => {
                        &&& !signin
                        &&& secret == Some(s.sapisid@)
                        &&& key == Some(s.innertube_api_key@)
                        &&& version == Some(s.client_version@)
                        &&& s.cookies == cookies
                        &&& s.account_id == account_id
                    },
                    Err(YoutubeMusicError::NeedToLogin) => signin,
                    Err(YoutubeMusicError::NoSapsidInCookie) => !signin && secret is None,
                    Err(YoutubeMusicError::CantFindInnerTubeApiKey(body)) => {
                        &&& !signin
                        &&& secret is Some
                        &&& key is None
                        &&& body == response
                    },
                    Err(YoutubeMusicError::CantFindInnerTubeClientVersion(body)) => {
                        &&& !signin
                        &&& secret is Some
                        &&& key is Some
                        &&& version is None
                        &&& body == response
                    },
                    _ => false,
                }
            }),
    {
        if contains_str(
            response.as_str(),
            "<base href=\"https://accounts.google.com/v3/signin/\">",
        ) || contains_str(response.as_str(), "<base href=\"https://consent.youtube.com/\"") {
            return Err(YoutubeMusicError::NeedToLogin);
        }
        let sapisid = match cookies.between("SAPISID=", ";") {
            Some(s) => s.to_owned(),
            None => {
                return Err(YoutubeMusicError::NoSapsidInCookie);
            },
        };
        let innertube_api_key = match response.between("INNERTUBE_API_KEY\":\"", "\"") {
            Some(s) => s.to_owned(),
            None => {
                return Err(YoutubeMusicError::CantFindInnerTubeApiKey(response));
            },
        };
        let client_version = match response.between("INNERTUBE_CLIENT_VERSION\":\"", "\"") {
            Some(s) => s.to_owned(),
            None => {
                return Err(YoutubeMusicError::CantFindInnerTubeClientVersion(response));
            },
        };
        Ok(
            YoutubeMusicInstance {
                sapisid,
                innertube_api_key,
                client_version,
                cookies,
                account_id,
            },
        )
    }

    /// The URL of a first-page browse call.
    pub fn browse_url(&self, endpoint_route: &str) -> (r: String)
        ensures
            r@ == "https://music.youtube.com/youtubei/v1/"@ + endpoint_route@ + "?key="@
                + self.innertube_api_key@ + "&prettyPrint=false"@,
    {
        let mut url = String::new();
        url.append("https://music.youtube.com/youtubei/v1/");
        url.append(endpoint_route);
        url.append("?key=");
        url.append(self.innertube_api_key.as_str());
        url.append("&prettyPrint=false");
        url
    }

    /// The URL of a continuation call: the token and the click-tracking
    /// id travel as query parameters.
    pub fn continuation_url(&self, continuation: &Continuation) -> (r: String)
        ensures
            r@ == "https://music.youtube.com/youtubei/v1/browse?ctoken="@
                + continuation.continuation@ + "&continuation="@ + continuation.continuation@
                + "&type=next&itct="@ + continuation.click_tracking_params@ + "&key="@
                + self.innertube_api_key@ + "&prettyPrint=false"@,
    {
        let mut url = String::new();
        url.append("https://music.youtube.com/youtubei/v1/browse?ctoken=");
        url.append(continuation.continuation.as_str());
        url.append("&continuation=");
        url.append(continuation.continuation.as_str());
        url.append("&type=next&itct=");
        url.append(continuation.click_tracking_params.as_str());
        url.append("&key=");
        url.append(self.innertube_api_key.as_str());
        url.append("&prettyPrint=false");
        url
    }

    /// The body of a first-page browse call, embedding the endpoint's
    /// key/parameter pair.
    pub fn browse_body(&self, endpoint_key: &str, endpoint_param: &str) -> (r: String)
        ensures
            r@ == spec_request_body(
                self.client_version@,
                account_view(self.account_id),
                Some((endpoint_key@, endpoint_param@)),
            ),
    {
        let mut body = self.context_head();
        body.append("},\"");
        body.append(endpoint_key);
        body.append("\":\"");
        body.append(endpoint_param);
        body.append("\"}");
        body
    }

    /// The body of a continuation call: the context alone.
    pub fn continuation_body(&self) -> (r: String)
        ensures
            r@ == spec_request_body(self.client_version@, account_view(self.account_id), None),
    {
        let mut body = self.context_head();
        body.append("}}");
        body
    }

    fn context_head(&self) -> (r: String)
        ensures
            r@ == ({
                let head =
                    "{\"context\":{\"client\":{\"clientName\":\"WEB_REMIX\",\"clientVersion\":\""@
                    + self.client_version@ + "\"}"@;
                match account_view(self.account_id) {
                    Some(id) => head + ",\"user\":{\"onBehalfOfUser\":\""@ + id + "\"}"@,
                    None => head,
                }
            }),
    {
        let mut body = String::new();
        body.append("{\"context\":{\"client\":{\"clientName\":\"WEB_REMIX\",\"clientVersion\":\"");
        body.append(self.client_version.as_str());
        body.append("\"}");
        match &self.account_id {
            Some(id) => {
                body.append(",\"user\":{\"onBehalfOfUser\":\"");
                body.append(id.as_str());
                body.append("\"}");
            },
            None => {},
        }
        body
    }

    /// The authorization token of the moment: the signature over the
    /// session secret and the origin at the current clock second. Never
    /// cached — each call signs anew.
    pub fn compute_sapi_hash(&self) -> (r: String)
        ensures
            exists|ts: u64| r@ == spec_signature(self.sapisid@, "https://music.youtube.com"@, ts as nat),
    {
        let ts = unix_timestamp_secs();
        let r = sign(self.sapisid.as_str(), yt_domain(), ts);
        proof {
            assert(r@ == spec_signature(self.sapisid@, "https://music.youtube.com"@, ts as nat));
        }
        r
    }

    /// The parsed browse step over a response tree: a top-level `error`
    /// field fails the call with the payload kept for inspection; when
    /// pagination was requested the continuations of the tree are
    /// collected, otherwise none are, whatever the tree holds.
    pub fn browse_parsed(v: JsonValue, continuations: bool) -> (r: Result<
        (JsonValue, Vec<Continuation>),
        YoutubeMusicError,
    >)
        ensures
            match r {
                Ok(p) => {
                    &&& !v.spec_has_key("error"@)
                    &&& p.0 == v
                    &&& continuations ==> p.1.deep_view() == walk(ContinuationRule, v)
                    &&& !continuations ==> p.1@.len() == 0
                },
                Err(YoutubeMusicError::YoutubeMusicError(p)) => v.spec_has_key("error"@) && p
                    == v,
                _ => false,
            },
    {
        if v.get("error").is_some() {
            return Err(YoutubeMusicError::YoutubeMusicError(v));
        }
        let conts = if continuations {
            get_continuation(&v)
        } else {
            Vec::new()
        };
        Ok((v, conts))
    }

    /// The full browse step over a raw response body: parses it, checks
    /// for an upstream error, and collects continuations when asked to.
    /// The returned tree is the tree of the body, never anything else.
    pub fn browse(raw_body: &str, continuations: bool) -> (r: Result<
        (JsonValue, Vec<Continuation>),
        YoutubeMusicError,
    >)
        ensures
            match r {
                Ok(p) => {
                    &&& json_parse_ok(raw_body@)
                    &&& p.0 == json_tree_of(raw_body@)
                    &&& !p.0.spec_has_key("error"@)
                    &&& continuations ==> p.1.deep_view() == walk(ContinuationRule, p.0)
                    &&& !continuations ==> p.1@.len() == 0
                },
                Err(YoutubeMusicError::SerdeJson) => !json_parse_ok(raw_body@),
                Err(YoutubeMusicError::YoutubeMusicError(p)) => {
                    &&& json_parse_ok(raw_body@)
                    &&& p == json_tree_of(raw_body@)
                    &&& p.spec_has_key("error"@)
                },
                _ => false,
            },
    {
        match parse_json(raw_body) {
            None => Err(YoutubeMusicError::SerdeJson),
            Some(v) => Self::browse_parsed(v, continuations),
        }
    }

    /// The browse step of a continuation page follows the same
    /// discipline as the first page.
    pub fn browse_continuation(raw_body: &str, continuations: bool) -> (r: Result<
        (JsonValue, Vec<Continuation>),
        YoutubeMusicError,
    >)
        ensures
            match r {
                Ok(p) => {
                    &&& json_parse_ok(raw_body@)
                    &&& p.0 == json_tree_of(raw_body@)
                    &&& !p.0.spec_has_key("error"@)
                    &&& continuations ==> p.1.deep_view() == walk(ContinuationRule, p.0)
                    &&& !continuations ==> p.1@.len() == 0
                },
                Err(YoutubeMusicError::SerdeJson) => !json_parse_ok(raw_body@),
                Err(YoutubeMusicError::YoutubeMusicError(p)) => {
                    &&& json_parse_ok(raw_body@)
                    &&& p == json_tree_of(raw_body@)
                    &&& p.spec_has_key("error"@)
                },
                _ => false,
            },
    {
        Self::browse(raw_body, continuations)
    }
}

/// Relies on std::time::SystemTime::now and duration_since: the seconds
/// of the Unix timestamp of the moment; zero if the clock stands before
/// the epoch.
#[verifier::external_body]
fn unix_timestamp_secs() -> u64 {
    std::time::SystemTime::now().duration_since(std::time::UNIX_EPOCH).map(
        |d| d.as_secs(),
    ).unwrap_or(0)
}

} // verus!
