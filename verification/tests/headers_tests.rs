use ytmusic_browse::cookies::assemble_cookie_header;
use ytmusic_browse::cookies::CookieRecord;
use ytmusic_browse::headers::clean_account_id;
use ytmusic_browse::headers::parse_header_file;
use ytmusic_browse::types::YoutubeMusicError;

const DEFAULT_UA: &str =
    "Mozilla/5.0 (X11; Linux x86_64; rv:108.0) Gecko/20100101 Firefox/108.0";

#[test]
fn header_file_yields_cookie_and_user_agent() {
    let text = "Cookie: a=b; c=d\nUser-Agent: TestAgent/1.0\n".to_string();
    let bag = parse_header_file(&text).unwrap();
    assert_eq!(bag.cookie, "a=b; c=d");
    assert_eq!(bag.user_agent, "TestAgent/1.0");
}

#[test]
fn header_keys_match_without_regard_to_case() {
    let text = "COOKIE: k=v\nuser-agent: UA\n".to_string();
    let bag = parse_header_file(&text).unwrap();
    assert_eq!(bag.cookie, "k=v");
    assert_eq!(bag.user_agent, "UA");
}

#[test]
fn last_header_of_a_name_wins() {
    let text = "Cookie: first\nCookie: second\n".to_string();
    let bag = parse_header_file(&text).unwrap();
    assert_eq!(bag.cookie, "second");
}

#[test]
fn unknown_headers_and_blank_lines_are_skipped() {
    let text = "Accept: text/html\n\nCookie: z=1\nNoColonHere\n".to_string();
    let bag = parse_header_file(&text).unwrap();
    assert_eq!(bag.cookie, "z=1");
}

#[test]
fn missing_user_agent_falls_back_to_default() {
    let text = "Cookie: only=this\n".to_string();
    let bag = parse_header_file(&text).unwrap();
    assert_eq!(bag.user_agent, DEFAULT_UA);
}

#[test]
fn missing_cookie_is_invalid_headers() {
    let text = "User-Agent: UA\n".to_string();
    assert!(matches!(
        parse_header_file(&text),
        Err(YoutubeMusicError::InvalidHeaders)
    ));
}

#[test]
fn carriage_returns_are_stripped_from_lines() {
    let text = "Cookie: crlf=1\r\nUser-Agent: UA\r\n".to_string();
    let bag = parse_header_file(&text).unwrap();
    assert_eq!(bag.cookie, "crlf=1");
    assert_eq!(bag.user_agent, "UA");
}

#[test]
fn account_id_trailing_newlines_are_stripped() {
    assert_eq!(clean_account_id(&"acct\n".to_string()), "acct");
    assert_eq!(clean_account_id(&"acct\r\n".to_string()), "acct");
    assert_eq!(clean_account_id(&"acct".to_string()), "acct");
    assert_eq!(clean_account_id(&"\n".to_string()), "");
}

fn cookie(name: &str, value: &str, domain: &str, expires: Option<u64>) -> CookieRecord {
    CookieRecord {
        name: name.to_string(),
        value: value.to_string(),
        domain: domain.to_string(),
        expires,
    }
}

#[test]
fn cookie_header_keeps_service_domains_only() {
    let cs = vec![
        cookie("a", "1", ".youtube.com", None),
        cookie("b", "2", "example.com", None),
        cookie("c", "3", "music.youtube.com", None),
    ];
    assert_eq!(assemble_cookie_header(&cs, 1000), "a=1; c=3");
}

#[test]
fn expired_cookies_are_dropped() {
    let cs = vec![
        cookie("a", "1", ".youtube.com", Some(999)),
        cookie("b", "2", ".youtube.com", Some(1000)),
        cookie("c", "3", ".youtube.com", None),
    ];
    assert_eq!(assemble_cookie_header(&cs, 1000), "b=2; c=3");
}

#[test]
fn first_cookie_of_a_name_wins() {
    let cs = vec![
        cookie("a", "first", ".youtube.com", None),
        cookie("a", "second", "music.youtube.com", None),
        cookie("b", "x", ".youtube.com", None),
    ];
    assert_eq!(assemble_cookie_header(&cs, 0), "a=first; b=x");
}

#[test]
fn no_admissible_cookies_gives_empty_header() {
    let cs = vec![cookie("a", "1", "example.com", None)];
    assert_eq!(assemble_cookie_header(&cs, 0), "");
}
