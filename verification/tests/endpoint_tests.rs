use ytmusic_browse::endpoint::Endpoint;

#[test]
fn search_endpoint_triple() {
    let e = Endpoint::Search("jazz".to_string());
    assert_eq!(e.get_param(), "jazz");
    assert_eq!(e.get_key(), "query");
    assert_eq!(e.get_route(), "search");
}

#[test]
fn playlist_endpoint_triple() {
    let e = Endpoint::Playlist("VLPL123".to_string());
    assert_eq!(e.get_param(), "VLPL123");
    assert_eq!(e.get_key(), "browseId");
    assert_eq!(e.get_route(), "browse");
}

#[test]
fn liked_playlists_endpoint_triple() {
    let e = Endpoint::MusicLikedPlaylists;
    assert_eq!(e.get_param(), "FEmusic_liked_playlists");
    assert_eq!(e.get_key(), "browseId");
    assert_eq!(e.get_route(), "browse");
}

#[test]
fn home_endpoint_triple() {
    let e = Endpoint::MusicHome;
    assert_eq!(e.get_param(), "FEmusic_home");
    assert_eq!(e.get_key(), "browseId");
    assert_eq!(e.get_route(), "browse");
}

#[test]
fn library_landing_endpoint_triple() {
    let e = Endpoint::MusicLibraryLanding;
    assert_eq!(e.get_param(), "FEmusic_library_landing");
    assert_eq!(e.get_key(), "browseId");
    assert_eq!(e.get_route(), "browse");
}

#[test]
fn endpoint_getters_are_pure() {
    let e = Endpoint::Search("same".to_string());
    assert_eq!(e.get_param(), e.get_param());
    assert_eq!(e.get_key(), e.get_key());
    assert_eq!(e.get_route(), e.get_route());
}
