use ytmusic_browse::instance::YoutubeMusicInstance;
use ytmusic_browse::json::JsonValue;
use ytmusic_browse::types::YoutubeMusicError;
use ytmusic_browse::utils::StringUtils;

fn landing_page() -> String {
    "<html>stuff \"INNERTUBE_API_KEY\":\"KEY123\" more \"INNERTUBE_CLIENT_VERSION\":\"1.2024\" tail</html>".to_string()
}

fn cookie_line() -> String {
    "PREF=x; SAPISID=sapi-secret; OTHER=y;".to_string()
}

fn instance() -> YoutubeMusicInstance {
    YoutubeMusicInstance::new(landing_page(), cookie_line(), Some("acct".to_string())).unwrap()
}

#[test]
fn between_reads_text_between_markers() {
    let s = "Error in cookie".to_string();
    assert_eq!(s.between("Error", "cookie"), Some(" in "));
    assert_eq!(s.between("in", "Error"), None);
    assert_eq!(s.between("absent", "cookie"), None);
}

#[test]
fn authenticate_extracts_all_credentials() {
    let inst = instance();
    assert_eq!(inst.sapisid, "sapi-secret");
    assert_eq!(inst.innertube_api_key, "KEY123");
    assert_eq!(inst.client_version, "1.2024");
    assert_eq!(inst.cookies, cookie_line());
    assert_eq!(inst.account_id.as_deref(), Some("acct"));
}

#[test]
fn login_redirect_is_detected_before_extraction() {
    // The body carries the sign-in base-href marker; the cookie string
    // holds no session secret, yet the login failure wins.
    let body = format!(
        "<base href=\"https://accounts.google.com/v3/signin/\">{}",
        landing_page()
    );
    let r = YoutubeMusicInstance::new(body, "no secret here".to_string(), None);
    assert!(matches!(r, Err(YoutubeMusicError::NeedToLogin)));
}

#[test]
fn consent_redirect_is_detected() {
    let body = format!("<base href=\"https://consent.youtube.com/\">{}", landing_page());
    let r = YoutubeMusicInstance::new(body, cookie_line(), None);
    assert!(matches!(r, Err(YoutubeMusicError::NeedToLogin)));
}

#[test]
fn missing_session_secret_is_reported() {
    let r = YoutubeMusicInstance::new(landing_page(), "PREF=x; OTHER=y;".to_string(), None);
    assert!(matches!(r, Err(YoutubeMusicError::NoSapsidInCookie)));
}

#[test]
fn missing_api_key_carries_the_body() {
    let body = "<html>\"INNERTUBE_CLIENT_VERSION\":\"1.2024\"</html>".to_string();
    match YoutubeMusicInstance::new(body.clone(), cookie_line(), None) {
        Err(YoutubeMusicError::CantFindInnerTubeApiKey(b)) => assert_eq!(b, body),
        other => panic!("unexpected result: {other:?}"),
    }
}

#[test]
fn missing_client_version_carries_the_body() {
    let body = "<html>\"INNERTUBE_API_KEY\":\"KEY123\"</html>".to_string();
    match YoutubeMusicInstance::new(body.clone(), cookie_line(), None) {
        Err(YoutubeMusicError::CantFindInnerTubeClientVersion(b)) => assert_eq!(b, body),
        other => panic!("unexpected result: {other:?}"),
    }
}

#[test]
fn browse_url_embeds_route_and_key() {
    let inst = instance();
    assert_eq!(
        inst.browse_url("browse"),
        "https://music.youtube.com/youtubei/v1/browse?key=KEY123&prettyPrint=false"
    );
}

#[test]
fn request_body_embeds_version_account_and_pair() {
    let inst = instance();
    assert_eq!(
        inst.browse_body("browseId", "FEmusic_home"),
        "{\"context\":{\"client\":{\"clientName\":\"WEB_REMIX\",\"clientVersion\":\"1.2024\"},\"user\":{\"onBehalfOfUser\":\"acct\"}},\"browseId\":\"FEmusic_home\"}"
    );
    assert_eq!(
        inst.continuation_body(),
        "{\"context\":{\"client\":{\"clientName\":\"WEB_REMIX\",\"clientVersion\":\"1.2024\"},\"user\":{\"onBehalfOfUser\":\"acct\"}}}"
    );
}

#[test]
fn request_body_without_account_scope() {
    let inst =
        YoutubeMusicInstance::new(landing_page(), cookie_line(), None).unwrap();
    assert_eq!(
        inst.browse_body("query", "jazz"),
        "{\"context\":{\"client\":{\"clientName\":\"WEB_REMIX\",\"clientVersion\":\"1.2024\"}},\"query\":\"jazz\"}"
    );
}

#[test]
fn continuation_url_embeds_token_and_tracking() {
    let inst = instance();
    let c = ytmusic_browse::types::Continuation {
        continuation: "TOK".to_string(),
        click_tracking_params: "CT".to_string(),
    };
    assert_eq!(
        inst.continuation_url(&c),
        "https://music.youtube.com/youtubei/v1/browse?ctoken=TOK&continuation=TOK&type=next&itct=CT&key=KEY123&prettyPrint=false"
    );
}

#[test]
fn sapi_hash_has_signature_shape() {
    let inst = instance();
    let h = inst.compute_sapi_hash();
    let (ts, hex) = h.split_once('_').unwrap();
    assert!(ts.parse::<u64>().is_ok());
    assert_eq!(hex.len(), 40);
    assert!(hex.chars().all(|c| c.is_ascii_hexdigit() && !c.is_ascii_uppercase()));
}

#[test]
fn upstream_error_short_circuits_browse() {
    // Well-formed track substructures beside a top-level error field:
    // the call fails and yields no records.
    let body = "{\"error\":{\"code\":403},\"contents\":{\"videoId\":\"X\",\"title\":\"T\",\"author\":\"A\",\"album\":\"B\",\"duration\":\"1:00\"}}";
    match YoutubeMusicInstance::browse(body, true) {
        Err(YoutubeMusicError::YoutubeMusicError(payload)) => {
            assert!(matches!(payload, JsonValue::Obj(_)));
        },
        other => panic!("unexpected result: {other:?}"),
    }
}

#[test]
fn browse_returns_the_tree_of_the_body() {
    let body = "{\"alpha\":\"beta\"}";
    let (tree, conts) = YoutubeMusicInstance::browse(body, false).unwrap();
    match tree {
        JsonValue::Obj(fields) => {
            assert_eq!(fields.len(), 1);
            assert_eq!(fields[0].0, "alpha");
            assert!(matches!(&fields[0].1, JsonValue::Str(s) if s == "beta"));
        },
        other => panic!("unexpected tree: {other:?}"),
    }
    assert!(conts.is_empty());
}

#[test]
fn invalid_json_body_is_a_parse_failure() {
    assert!(matches!(
        YoutubeMusicInstance::browse("{oops", false),
        Err(YoutubeMusicError::SerdeJson)
    ));
}

#[test]
fn browse_without_pagination_returns_no_continuations() {
    let body = "{\"continuation\":\"tok\",\"clickTrackingParams\":\"ct\"}";
    let (_, conts) = YoutubeMusicInstance::browse(body, false).unwrap();
    assert!(conts.is_empty());
}

#[test]
fn browse_with_pagination_collects_continuations() {
    let body = "{\"a\":{\"continuation\":\"tok\",\"clickTrackingParams\":\"ct\"}}";
    let (_, conts) = YoutubeMusicInstance::browse_continuation(body, true).unwrap();
    assert_eq!(conts.len(), 1);
    assert_eq!(conts[0].continuation, "tok");
}
