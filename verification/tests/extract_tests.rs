use ytmusic_browse::extract::from_json;
use ytmusic_browse::extract::extract_playlist_info;
use ytmusic_browse::extract::get_continuation;
use ytmusic_browse::extract::parse_playlist;
use ytmusic_browse::extract::ContinuationRule;
use ytmusic_browse::extract::PlaylistRule;
use ytmusic_browse::extract::TrackRule;
use ytmusic_browse::json::parse_json;
use ytmusic_browse::json::JsonValue;

fn s(v: &str) -> JsonValue {
    JsonValue::Str(v.to_string())
}

fn obj(fields: Vec<(&str, JsonValue)>) -> JsonValue {
    JsonValue::Obj(fields.into_iter().map(|(k, v)| (k.to_string(), v)).collect())
}

fn track(id: &str, title: &str, author: &str, album: &str, duration: &str) -> JsonValue {
    obj(vec![
        ("videoId", s(id)),
        ("title", s(title)),
        ("author", s(author)),
        ("album", s(album)),
        ("duration", s(duration)),
    ])
}

#[test]
fn parse_json_reads_nested_documents() {
    let v = parse_json(r#"{"a":[{"b":"c"},null,true,7],"d":"e"}"#).unwrap();
    match &v {
        JsonValue::Obj(fields) => {
            assert_eq!(fields.len(), 2);
            assert_eq!(fields[0].0, "a");
            match &fields[0].1 {
                JsonValue::Arr(items) => assert_eq!(items.len(), 4),
                _ => panic!("expected an array"),
            }
        },
        _ => panic!("expected an object"),
    }
    assert!(parse_json("{not json").is_none());
}

#[test]
fn track_extraction_is_pre_order() {
    let tree = obj(vec![
        ("first", track("a", "A", "au", "al", "1:00")),
        ("rest", JsonValue::Arr(vec![
            track("b", "B", "au", "al", "2:00"),
            track("c", "C", "au", "al", "3:00"),
        ])),
    ]);
    let vs = from_json(&tree, TrackRule);
    let ids: Vec<&str> = vs.iter().map(|v| v.video_id.as_str()).collect();
    assert_eq!(ids, vec!["a", "b", "c"]);
}

#[test]
fn nested_matches_are_not_pruned() {
    // A matching node whose own subtree holds another match: both found.
    let inner = track("inner", "I", "au", "al", "0:30");
    let outer = obj(vec![
        ("videoId", s("outer")),
        ("title", s("O")),
        ("author", s("au")),
        ("album", s("al")),
        ("duration", s("9:59")),
        ("children", JsonValue::Arr(vec![inner])),
    ]);
    let vs = from_json(&outer, TrackRule);
    let ids: Vec<&str> = vs.iter().map(|v| v.video_id.as_str()).collect();
    assert_eq!(ids, vec!["outer", "inner"]);
}

#[test]
fn malformed_candidate_is_skipped_not_fatal() {
    // The first node lacks a duration, the second is complete.
    let tree = JsonValue::Arr(vec![
        obj(vec![("videoId", s("x")), ("title", s("X"))]),
        track("y", "Y", "au", "al", "4:04"),
    ]);
    let vs = from_json(&tree, TrackRule);
    assert_eq!(vs.len(), 1);
    assert_eq!(vs[0].video_id, "y");
}

#[test]
fn continuation_extraction_finds_token_pairs() {
    let tree = obj(vec![
        ("a", obj(vec![("continuation", s("tok1")), ("clickTrackingParams", s("ct1"))])),
        ("b", obj(vec![("continuation", s("lonely"))])),
        ("c", obj(vec![("clickTrackingParams", s("lonely"))])),
        ("d", obj(vec![("continuation", s("tok2")), ("clickTrackingParams", s("ct2"))])),
    ]);
    let cs = get_continuation(&tree);
    assert_eq!(cs.len(), 2);
    assert_eq!(cs[0].continuation, "tok1");
    assert_eq!(cs[0].click_tracking_params, "ct1");
    assert_eq!(cs[1].continuation, "tok2");
    assert_eq!(cs[1].click_tracking_params, "ct2");
}

#[test]
fn playlist_extraction_reads_title_as_name() {
    let tree = JsonValue::Arr(vec![obj(vec![
        ("browseId", s("VL1")),
        ("title", s("Mix")),
        ("subtitle", s("12 tracks")),
    ])]);
    let ps = from_json(&tree, PlaylistRule);
    assert_eq!(ps.len(), 1);
    assert_eq!(ps[0].name, "Mix");
    assert_eq!(ps[0].subtitle, "12 tracks");
    assert_eq!(ps[0].browse_id, "VL1");
}

#[test]
fn playlist_info_takes_first_match() {
    let tree = JsonValue::Arr(vec![
        obj(vec![("playlistTitle", s("Album A")), ("playlistArtists", s("Artist A"))]),
        obj(vec![("playlistTitle", s("Album B")), ("playlistArtists", s("Artist B"))]),
    ]);
    let info = extract_playlist_info(&tree).unwrap();
    assert_eq!(info.0, "Album A");
    assert_eq!(info.1, "Artist A");
    assert!(extract_playlist_info(&s("nothing")).is_none());
}

#[test]
fn merge_keeps_one_record_per_track_id_and_backfills() {
    // One plain track node with empty album/author, one album-context
    // node for the same id, plus the album's own info: exactly one
    // record, with album and author filled from the info.
    let tree = obj(vec![
        ("info", obj(vec![
            ("playlistTitle", s("The Album")),
            ("playlistArtists", s("The Artist")),
        ])),
        ("track", track("X", "Song", "", "", "3:33")),
        ("albumTrack", obj(vec![
            ("videoId", s("X")),
            ("title", s("Song")),
            ("duration", s("3:33")),
        ])),
    ]);
    let vs = parse_playlist(&tree);
    assert_eq!(vs.len(), 1);
    assert_eq!(vs[0].video_id, "X");
    assert_eq!(vs[0].title, "Song");
    assert_eq!(vs[0].album, "The Album");
    assert_eq!(vs[0].author, "The Artist");
}

#[test]
fn album_only_track_is_added_with_backfill() {
    let tree = obj(vec![
        ("info", obj(vec![
            ("playlistTitle", s("LP")),
            ("playlistArtists", s("Band")),
        ])),
        ("track", track("X", "One", "Solo", "Single", "2:00")),
        ("albumTrack", obj(vec![
            ("videoId", s("Y")),
            ("title", s("Two")),
            ("duration", s("2:22")),
        ])),
    ]);
    let vs = parse_playlist(&tree);
    assert_eq!(vs.len(), 2);
    assert_eq!(vs[0].video_id, "X");
    assert_eq!(vs[0].album, "Single");
    assert_eq!(vs[0].author, "Solo");
    assert_eq!(vs[1].video_id, "Y");
    assert_eq!(vs[1].album, "LP");
    assert_eq!(vs[1].author, "Band");
}

#[test]
fn merge_without_info_leaves_fields_empty() {
    let tree = obj(vec![(
        "albumTrack",
        obj(vec![("videoId", s("Z")), ("title", s("Three")), ("duration", s("1:11"))]),
    )]);
    let vs = parse_playlist(&tree);
    assert_eq!(vs.len(), 1);
    assert_eq!(vs[0].album, "");
    assert_eq!(vs[0].author, "");
}
