use sha1::Digest;
use ytmusic_browse::sign::sign;
use ytmusic_browse::sign::u64_to_dec;

#[test]
fn signature_is_deterministic() {
    let a = sign("secret", "https://music.youtube.com", 1700000000);
    let b = sign("secret", "https://music.youtube.com", 1700000000);
    assert_eq!(a, b);
}

#[test]
fn signature_shape_is_timestamp_underscore_40_hex() {
    let s = sign("secret", "https://music.youtube.com", 1700000000);
    let (ts, hex) = s.split_once('_').unwrap();
    assert_eq!(ts, "1700000000");
    assert_eq!(hex.len(), 40);
    assert!(hex.chars().all(|c| c.is_ascii_hexdigit() && !c.is_ascii_uppercase()));
}

#[test]
fn signature_matches_direct_digest() {
    let secret = "AAAA";
    let origin = "https://music.youtube.com";
    let ts: u64 = 123456789;
    let mut hasher = sha1::Sha1::new();
    hasher.update(format!("{ts} {secret} {origin}").as_bytes());
    let digest = hasher.finalize();
    let mut expected = format!("{ts}_");
    for byte in digest {
        expected.push_str(&format!("{byte:02x}"));
    }
    assert_eq!(sign(secret, origin, ts), expected);
}

#[test]
fn signature_changes_with_each_input() {
    let base = sign("secret", "https://music.youtube.com", 1700000000);
    assert_ne!(base, sign("secres", "https://music.youtube.com", 1700000000));
    assert_ne!(base, sign("secret", "https://music.youtube.co", 1700000000));
    assert_ne!(base, sign("secret", "https://music.youtube.com", 1700000001));
}

#[test]
fn decimal_formatting_matches_display() {
    assert_eq!(u64_to_dec(0), "0");
    assert_eq!(u64_to_dec(7), "7");
    assert_eq!(u64_to_dec(1700000000), "1700000000");
    assert_eq!(u64_to_dec(u64::MAX), u64::MAX.to_string());
}
