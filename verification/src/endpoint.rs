//! The endpoint model: each logical operation maps to a route name, a JSON
//! body key, and a body parameter value.

use vstd::prelude::*;

verus! {

/// A logical operation of the remote service. The five variants form a
/// closed set; each one deterministically yields a route, a key and a
/// parameter.
#[derive(Debug, Clone, PartialOrd, Eq, Ord, PartialEq, Hash)]
pub enum Endpoint {
    MusicLikedPlaylists,
    MusicHome,
    MusicLibraryLanding,
    Playlist(String),
    Search(String),
}

impl Endpoint {
    /// The JSON body key this endpoint uses: `"query"` for a search,
    /// `"browseId"` for everything else.
    pub open spec fn spec_key(self) -> Seq<char> {
        match self {
            Endpoint::Search(_) => "query"@,
            _ => "browseId"@,
        }
    }

    /// The body parameter: the fixed feed identifier of the static variants,
    /// or the carried playlist id / search query.
    pub open spec fn spec_param(self) -> Seq<char> {
        match self {
            Endpoint::MusicLikedPlaylists => "FEmusic_liked_playlists"@,
            Endpoint::MusicLibraryLanding => "FEmusic_library_landing"@,
            Endpoint::Playlist(id) => id@,
            Endpoint::Search(query) => query@,
            Endpoint::MusicHome => "FEmusic_home"@,
        }
    }

    /// The route name: `"search"` for a search, `"browse"` for everything else.
    pub open spec fn spec_route(self) -> Seq<char> {
        match self {
            Endpoint::Search(_) => "search"@,
            _ => "browse"@,
        }
    }

    pub fn get_key(&self) -> (r: String)
        ensures
            r@ == self.spec_key(),
    {
        match self {
            Endpoint::MusicLikedPlaylists => "browseId".to_owned(),
            Endpoint::MusicLibraryLanding => "browseId".to_owned(),
            Endpoint::Playlist(_) => "browseId".to_owned(),
            Endpoint::MusicHome => "browseId".to_owned(),
            Endpoint::Search(_) => "query".to_owned(),
        }
    }

    pub fn get_param(&self) -> (r: String)
        ensures
            r@ == self.spec_param(),
    {
        match self {
            Endpoint::MusicLikedPlaylists => "FEmusic_liked_playlists".to_owned(),
            Endpoint::MusicLibraryLanding => "FEmusic_library_landing".to_owned(),
            Endpoint::Playlist(id) => id.clone(),
            Endpoint::Search(query) => query.clone(),
            Endpoint::MusicHome => "FEmusic_home".to_owned(),
        }
    }

    pub fn get_route(&self) -> (r: String)
        ensures
            r@ == self.spec_route(),
    {
        match self {
            Endpoint::MusicLikedPlaylists => "browse".to_owned(),
            Endpoint::MusicLibraryLanding => "browse".to_owned(),
            Endpoint::Playlist(_) => "browse".to_owned(),
            Endpoint::Search(_) => "search".to_owned(),
            Endpoint::MusicHome => "browse".to_owned(),
        }
    }
}

} // verus!
