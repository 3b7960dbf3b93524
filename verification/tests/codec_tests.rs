use ytmusic_browse::codec::read_str;
use ytmusic_browse::codec::read_video;
use ytmusic_browse::codec::read_videos;
use ytmusic_browse::codec::write_str;
use ytmusic_browse::codec::write_video;
use ytmusic_browse::codec::write_videos;
use ytmusic_browse::types::YoutubeMusicVideoRef;

fn sample(n: u32) -> YoutubeMusicVideoRef {
    YoutubeMusicVideoRef {
        title: format!("Title {n}"),
        author: format!("Author {n}"),
        album: format!("Album {n}"),
        video_id: format!("id{n}"),
        duration: format!("{n}:0{n}"),
    }
}

#[test]
fn single_record_round_trip() {
    let v = sample(1);
    let bytes = write_videos(&vec![v.clone()]);
    let back = read_videos(&bytes).unwrap();
    assert_eq!(back, vec![v]);
}

#[test]
fn many_records_round_trip_in_order() {
    let vs: Vec<YoutubeMusicVideoRef> = (0..9).map(sample).collect();
    let bytes = write_videos(&vs);
    let back = read_videos(&bytes).unwrap();
    assert_eq!(back, vs);
}

#[test]
fn unicode_fields_round_trip() {
    let v = YoutubeMusicVideoRef {
        title: "Tiësto — héllo ✨".to_string(),
        author: "藝術家".to_string(),
        album: String::new(),
        video_id: "x".to_string(),
        duration: "3:05".to_string(),
    };
    let bytes = write_videos(&vec![v.clone()]);
    assert_eq!(read_videos(&bytes).unwrap(), vec![v]);
}

#[test]
fn empty_input_is_empty_record_set() {
    assert_eq!(read_videos(&Vec::new()).unwrap(), Vec::new());
}

#[test]
fn truncated_stream_is_rejected() {
    let vs: Vec<YoutubeMusicVideoRef> = (0..3).map(sample).collect();
    let mut bytes = write_videos(&vs);
    bytes.pop();
    assert!(read_videos(&bytes).is_none());
}

#[test]
fn truncated_single_record_is_rejected_not_partial() {
    let mut bytes = Vec::new();
    write_video(&sample(2), &mut bytes);
    bytes.pop();
    assert!(read_videos(&bytes).is_none());
}

#[test]
fn record_with_empty_last_field_truncates_to_failure() {
    let v = YoutubeMusicVideoRef {
        title: "t".to_string(),
        author: "a".to_string(),
        album: "b".to_string(),
        video_id: "v".to_string(),
        duration: String::new(),
    };
    let mut bytes = write_videos(&vec![v]);
    bytes.pop();
    assert!(read_videos(&bytes).is_none());
}

#[test]
fn string_length_prefix_uses_continuation_bit() {
    let s: String = "x".repeat(200);
    let mut bytes = Vec::new();
    write_str(&s, &mut bytes);
    // 200 = 0x48 + continuation bit, then 1 as the next seven-bit group.
    assert_eq!(bytes[0], 0x80 + 72);
    assert_eq!(bytes[1], 1);
    assert_eq!(bytes.len(), 2 + 200);
    let mut pos = 0;
    assert_eq!(read_str(&bytes, &mut pos).unwrap(), s);
    assert_eq!(pos, bytes.len());
}

#[test]
fn invalid_utf8_payload_is_rejected() {
    // Length 2, then a malformed UTF-8 pair.
    let bytes = vec![2u8, 0xFF, 0xFE];
    let mut pos = 0;
    assert!(read_str(&bytes, &mut pos).is_none());
    assert_eq!(pos, 0);
}

#[test]
fn unterminated_length_prefix_is_rejected() {
    // Every byte carries the continuation bit: the varint never ends.
    let bytes = vec![0x81u8, 0x82, 0x83];
    let mut pos = 0;
    assert!(read_str(&bytes, &mut pos).is_none());
}

#[test]
fn read_video_consumes_exactly_one_record() {
    let a = sample(4);
    let b = sample(5);
    let mut bytes = Vec::new();
    write_video(&a, &mut bytes);
    let first_len = bytes.len();
    write_video(&b, &mut bytes);
    let mut pos = 0;
    assert_eq!(read_video(&bytes, &mut pos).unwrap(), a);
    assert_eq!(pos, first_len);
    assert_eq!(read_video(&bytes, &mut pos).unwrap(), b);
    assert_eq!(pos, bytes.len());
}
