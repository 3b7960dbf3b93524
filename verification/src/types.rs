//! The record types extracted from responses, and the error taxonomy.

use vstd::prelude::*;

use crate::json::JsonValue;

verus! {

/// A track record: all fields are kept as plain strings, the duration in
/// its exact upstream formatting.
#[derive(Debug, Clone, PartialOrd, Eq, Ord, PartialEq, Hash)]
pub struct YoutubeMusicVideoRef {
    pub title: String,
    pub author: String,
    pub album: String,
    pub video_id: String,
    pub duration: String,
}

/// The mathematical value of a [`YoutubeMusicVideoRef`]: its five fields as
/// character sequences.
pub struct VideoView {
    pub title: Seq<char>,
    pub author: Seq<char>,
    pub album: Seq<char>,
    pub video_id: Seq<char>,
    pub duration: Seq<char>,
}

impl View for YoutubeMusicVideoRef {
    type V = VideoView;

    open spec fn view(&self) -> VideoView {
        VideoView {
            title: self.title@,
            author: self.author@,
            album: self.album@,
            video_id: self.video_id@,
            duration: self.duration@,
        }
    }
}

impl DeepView for YoutubeMusicVideoRef {
    type V = VideoView;

    open spec fn deep_view(&self) -> VideoView {
        self.view()
    }
}

/// A playlist record.
#[derive(Debug, Clone, PartialOrd, Eq, Ord, PartialEq, Hash)]
pub struct YoutubeMusicPlaylistRef {
    pub name: String,
    pub subtitle: String,
    pub browse_id: String,
}

/// The mathematical value of a [`YoutubeMusicPlaylistRef`].
pub struct PlaylistView {
    pub name: Seq<char>,
    pub subtitle: Seq<char>,
    pub browse_id: Seq<char>,
}

impl View for YoutubeMusicPlaylistRef {
    type V = PlaylistView;

    open spec fn view(&self) -> PlaylistView {
        PlaylistView {
            name: self.name@,
            subtitle: self.subtitle@,
            browse_id: self.browse_id@,
        }
    }
}

impl DeepView for YoutubeMusicPlaylistRef {
    type V = PlaylistView;

    open spec fn deep_view(&self) -> PlaylistView {
        self.view()
    }
}

/// Search output: both lists are playlist-shaped records.
#[derive(Debug, Clone, PartialOrd, Eq, Ord, PartialEq, Hash)]
pub struct SearchResults {
    pub videos: Vec<YoutubeMusicPlaylistRef>,
    pub playlists: Vec<YoutubeMusicPlaylistRef>,
}

/// A pending follow-up page: the opaque continuation token and the
/// click-tracking identifier that must accompany it.
#[derive(Debug, Clone, PartialOrd, Eq, Ord, PartialEq, Hash)]
pub struct Continuation {
    pub continuation: String,
    pub click_tracking_params: String,
}

/// The mathematical value of a [`Continuation`].
pub struct ContinuationView {
    pub continuation: Seq<char>,
    pub click_tracking_params: Seq<char>,
}

impl View for Continuation {
    type V = ContinuationView;

    open spec fn view(&self) -> ContinuationView {
        ContinuationView {
            continuation: self.continuation@,
            click_tracking_params: self.click_tracking_params@,
        }
    }
}

impl DeepView for Continuation {
    type V = ContinuationView;

    open spec fn deep_view(&self) -> ContinuationView {
        self.view()
    }
}

/// Everything the engine can fail with. Each failure is surfaced as one of
/// these values; none is retried inside the engine.
#[derive(Debug)]
pub enum YoutubeMusicError {
    /// The transport layer failed; carries its message.
    RequestError(String),
    Other(String),
    /// The header bag holds no cookie entry.
    NoCookieAttribute,
    /// The cookie string has no session-secret marker.
    NoSapsidInCookie,
    /// The landing page redirects to a sign-in or consent page: the
    /// session is stale or absent.
    NeedToLogin,
    /// The landing page holds no API key; carries the raw body.
    CantFindInnerTubeApiKey(String),
    /// The landing page holds no client version; carries the raw body.
    CantFindInnerTubeClientVersion(String),
    /// A response body is not valid JSON.
    SerdeJson,
    IoError(String),
    /// A response parsed, but carries a top-level error field; the parsed
    /// payload is kept for inspection.
    YoutubeMusicError(JsonValue),
    InvalidHeaders,
}

} // verus!
