//! The generic recursive JSON extraction mechanism.
//!
//! A rule is a recognizer-and-mapper pair: it looks only at the local shape
//! of a single node and maps it to zero or one typed record. [`from_json`]
//! applies a rule to every node of a tree — pre-order, object fields and
//! array elements in their given order — and collects the matches. A match
//! never prunes the subtree below it: nested matches are found too.

use vstd::prelude::*;

use crate::json::JsonValue;
use crate::types::Continuation;
use crate::types::ContinuationView;
use crate::types::YoutubeMusicPlaylistRef;

verus! {

/// A recognizer-and-mapper pair over single JSON nodes.
pub trait ExtractRule: Sized + Copy {
    type Out: DeepView;

    /// What the rule yields at this one node, ignoring its descendants.
    spec fn local(self, v: JsonValue) -> Option<<Self::Out as DeepView>::V>;

    /// Applies the rule to the local shape of `v`.
    fn try_match(&self, v: &JsonValue) -> (r: Option<Self::Out>)
        ensures
            r matches Some(x) ==> self.local(*v) == Some(x.deep_view()),
            r is None ==> self.local(*v) is None,
    ;
}

/// The rule's local yield as a sequence of zero or one records.
pub open spec fn local_seq<R: ExtractRule>(rule: R, v: JsonValue) -> Seq<
    <R::Out as DeepView>::V,
> {
    match rule.local(v) {
        Some(x) => seq![x],
        None => Seq::empty(),
    }
}

/// Everything the rule yields over the whole tree, in pre-order.
pub open spec fn walk<R: ExtractRule>(rule: R, v: JsonValue) -> Seq<<R::Out as DeepView>::V>
    decreases v,
{
    local_seq(rule, v) + match v {
        JsonValue::Arr(items) => walk_arr(rule, items@),
        JsonValue::Obj(fields) => walk_obj(rule, fields@),
        _ => Seq::empty(),
    }
}

pub open spec fn walk_arr<R: ExtractRule>(rule: R, items: Seq<JsonValue>) -> Seq<
    <R::Out as DeepView>::V,
>
    decreases items,
{
    if items.len() == 0 {
        Seq::empty()
    } else {
        walk(rule, items[0]) + walk_arr(rule, items.drop_first())
    }
}

pub open spec fn walk_obj<R: ExtractRule>(rule: R, fields: Seq<(String, JsonValue)>) -> Seq<
    <R::Out as DeepView>::V,
>
    decreases fields,
{
    if fields.len() == 0 {
        Seq::empty()
    } else {
        walk(rule, fields[0].1) + walk_obj(rule, fields.drop_first())
    }
}

proof fn lemma_walk_arr_concat<R: ExtractRule>(rule: R, s1: Seq<JsonValue>, s2: Seq<JsonValue>)
    ensures
        walk_arr(rule, s1 + s2) == walk_arr(rule, s1) + walk_arr(rule, s2),
    decreases s1.len(),
{
    if s1.len() == 0 {
        assert(s1 + s2 =~= s2);
        assert(walk_arr(rule, s1) + walk_arr(rule, s2) =~= walk_arr(rule, s2));
    } else {
        assert((s1 + s2).drop_first() =~= s1.drop_first() + s2);
        assert((s1 + s2)[0] == s1[0]);
        lemma_walk_arr_concat(rule, s1.drop_first(), s2);
        assert(walk_arr(rule, s1 + s2) =~= walk_arr(rule, s1) + walk_arr(rule, s2));
    }
}

proof fn lemma_walk_obj_concat<R: ExtractRule>(
    rule: R,
    s1: Seq<(String, JsonValue)>,
    s2: Seq<(String, JsonValue)>,
)
    ensures
        walk_obj(rule, s1 + s2) == walk_obj(rule, s1) + walk_obj(rule, s2),
    decreases s1.len(),
{
    if s1.len() == 0 {
        assert(s1 + s2 =~= s2);
        assert(walk_obj(rule, s1) + walk_obj(rule, s2) =~= walk_obj(rule, s2));
    } else {
        assert((s1 + s2).drop_first() =~= s1.drop_first() + s2);
        assert((s1 + s2)[0] == s1[0]);
        lemma_walk_obj_concat(rule, s1.drop_first(), s2);
        assert(walk_obj(rule, s1 + s2) =~= walk_obj(rule, s1) + walk_obj(rule, s2));
    }
}

/// Visits every node of `v` in pre-order and collects what the rule
/// yields. Never fails: a node the rule does not recognize is skipped,
/// not an error.
pub fn from_json<R: ExtractRule>(v: &JsonValue, rule: R) -> (out: Vec<R::Out>)
    ensures
        out.deep_view() == walk(rule, *v),
{
    let mut out: Vec<R::Out> = Vec::new();
    assert(out.deep_view() =~= Seq::<<R::Out as DeepView>::V>::empty());
    collect_into(rule, v, &mut out);
    out
}

#[verifier::loop_isolation(false)]
#[verifier::rlimit(60)]
fn collect_into<R: ExtractRule>(rule: R, v: &JsonValue, out: &mut Vec<R::Out>)
    ensures
        final(out).deep_view() == old(out).deep_view() + walk(rule, *v),
    decreases *v,
{
    let ghost base = out.deep_view();
    if let Some(x) = rule.try_match(v) {
        out.push(x);
        assert(out.deep_view() =~= base + local_seq(rule, *v));
    } else {
        assert(out.deep_view() =~= base + local_seq(rule, *v));
    }
    match v {
        JsonValue::Arr(items) => {
            let n = items.len();
            assert(items@.take(0) =~= Seq::<JsonValue>::empty());
            for i in 0..n
                invariant
                    out.deep_view() == base + local_seq(rule, *v) + walk_arr(
                        rule,
                        items@.take(i as int),
                    ),
            {
                collect_into(rule, &items[i], out);
                proof {
                    lemma_walk_arr_concat(rule, items@.take(i as int), seq![items@[i as int]]);
                    assert(items@.take(i + 1) =~= items@.take(i as int) + seq![items@[i as int]]);
                    assert(seq![items@[i as int]].drop_first() =~= Seq::<JsonValue>::empty());
                    assert(seq![items@[i as int]][0] == items@[i as int]);
                    assert(walk_arr(rule, Seq::<JsonValue>::empty()) =~= Seq::<
                        <R::Out as DeepView>::V,
                    >::empty());
                    assert(walk_arr(rule, seq![items@[i as int]]) =~= walk(
                        rule,
                        items@[i as int],
                    ));
                    assert(out.deep_view() =~= base + local_seq(rule, *v) + walk_arr(
                        rule,
                        items@.take(i + 1),
                    ));
                }
            }
            assert(items@.take(n as int) =~= items@);
        },
        JsonValue::Obj(fields) => {
            let n = fields.len();
            assert(fields@.take(0) =~= Seq::<(String, JsonValue)>::empty());
            for i in 0..n
                invariant
                    out.deep_view() == base + local_seq(rule, *v) + walk_obj(
                        rule,
                        fields@.take(i as int),
                    ),
            {
                collect_into(rule, &fields[i].1, out);
                proof {
                    lemma_walk_obj_concat(rule, fields@.take(i as int), seq![fields@[i as int]]);
                    assert(fields@.take(i + 1) =~= fields@.take(i as int) + seq![
                        fields@[i as int],
                    ]);
                    assert(seq![fields@[i as int]].drop_first() =~= Seq::<
                        (String, JsonValue),
                    >::empty());
                    assert(seq![fields@[i as int]][0] == fields@[i as int]);
                    assert(walk_obj(rule, Seq::<(String, JsonValue)>::empty()) =~= Seq::<
                        <R::Out as DeepView>::V,
                    >::empty());
                    assert(walk_obj(rule, seq![fields@[i as int]]) =~= walk(
                        rule,
                        fields@[i as int].1,
                    ));
                    assert(out.deep_view() =~= base + local_seq(rule, *v) + walk_obj(
                        rule,
                        fields@.take(i + 1),
                    ));
                }
            }
            assert(fields@.take(n as int) =~= fields@);
        },
        _ => {
            assert(out.deep_view() =~= base + walk(rule, *v));
        },
    }
}

/// The continuation recognizer: any object holding string fields
/// `continuation` and `clickTrackingParams` yields a pending page.
#[derive(Clone, Copy)]
pub struct ContinuationRule;

impl ExtractRule for ContinuationRule {
    type Out = Continuation;

    open spec fn local(self, v: JsonValue) -> Option<ContinuationView> {
        match (v.spec_get_str("continuation"@), v.spec_get_str("clickTrackingParams"@)) {
            (Some(c), Some(t)) => Some(
                ContinuationView { continuation: c, click_tracking_params: t },
            ),
            _ => None,
        }
    }

    fn try_match(&self, v: &JsonValue) -> (r: Option<Continuation>)
        ensures
            r matches Some(x) ==> self.local(*v) == Some(x.deep_view()),
            r is None ==> self.local(*v) is None,
    {
        match (v.get_str("continuation"), v.get_str("clickTrackingParams")) {
            (Some(c), Some(t)) => Some(
                Continuation { continuation: c.clone(), click_tracking_params: t.clone() },
            ),
            _ => None,
        }
    }
}

/// Collects every continuation token of the tree, in pre-order.
pub fn get_continuation(v: &JsonValue) -> (out: Vec<Continuation>)
    ensures
        out.deep_view() == walk(ContinuationRule, *v),
{
    from_json(v, ContinuationRule)
}

} // verus!

// The record rules and the video merge pass live below. The merge is the
// one place where two rules cooperate: plain track matches win, and
// album-context matches only add or backfill.

use crate::types::PlaylistView;
use crate::types::VideoView;
use crate::types::YoutubeMusicVideoRef;
use crate::json::str_eq;

verus! {

/// The string at `key`, or the empty string when the node has no string
/// there.
pub open spec fn str_or_empty(v: JsonValue, key: Seq<char>) -> Seq<char> {
    match v.spec_get_str(key) {
        Some(s) => s,
        None => Seq::empty(),
    }
}

fn get_str_or_empty(v: &JsonValue, key: &str) -> (r: String)
    ensures
        r@ == str_or_empty(*v, key@),
{
    match v.get_str(key) {
        Some(s) => s.clone(),
        None => String::new(),
    }
}

/// The track recognizer: an object carrying string fields at all five of
/// `videoId`, `title`, `author`, `album` and `duration`.
#[derive(Clone, Copy)]
pub struct TrackRule;

impl ExtractRule for TrackRule {
    type Out = YoutubeMusicVideoRef;

    open spec fn local(self, v: JsonValue) -> Option<VideoView> {
        match (
            v.spec_get_str("videoId"@),
            v.spec_get_str("title"@),
            v.spec_get_str("author"@),
            v.spec_get_str("album"@),
            v.spec_get_str("duration"@),
        ) {
            (Some(vi), Some(t), Some(au), Some(al), Some(d)) => Some(
                VideoView { title: t, author: au, album: al, video_id: vi, duration: d },
            ),
            _ => None,
        }
    }

    fn try_match(&self, v: &JsonValue) -> (r: Option<YoutubeMusicVideoRef>)
        ensures
            r matches Some(x) ==> self.local(*v) == Some(x.deep_view()),
            r is None ==> self.local(*v) is None,
    {
        match (
            v.get_str("videoId"),
            v.get_str("title"),
            v.get_str("author"),
            v.get_str("album"),
            v.get_str("duration"),
        ) {
            (Some(vi), Some(t), Some(au), Some(al), Some(d)) => Some(
                YoutubeMusicVideoRef {
                    title: t.clone(),
                    author: au.clone(),
                    album: al.clone(),
                    video_id: vi.clone(),
                    duration: d.clone(),
                },
            ),
            _ => None,
        }
    }
}

/// The album-context recognizer: a track inside an album subtree needs
/// only `videoId`, `title` and `duration`; the author and album strings
/// are taken when present and left empty otherwise.
#[derive(Clone, Copy)]
pub struct AlbumTrackRule;

impl ExtractRule for AlbumTrackRule {
    type Out = YoutubeMusicVideoRef;

    open spec fn local(self, v: JsonValue) -> Option<VideoView> {
        match (
            v.spec_get_str("videoId"@),
            v.spec_get_str("title"@),
            v.spec_get_str("duration"@),
        ) {
            (Some(vi), Some(t), Some(d)) => Some(
                VideoView {
                    title: t,
                    author: str_or_empty(v, "author"@),
                    album: str_or_empty(v, "album"@),
                    video_id: vi,
                    duration: d,
                },
            ),
            _ => None,
        }
    }

    fn try_match(&self, v: &JsonValue) -> (r: Option<YoutubeMusicVideoRef>)
        ensures
            r matches Some(x) ==> self.local(*v) == Some(x.deep_view()),
            r is None ==> self.local(*v) is None,
    {
        match (v.get_str("videoId"), v.get_str("title"), v.get_str("duration")) {
            (Some(vi), Some(t), Some(d)) => Some(
                YoutubeMusicVideoRef {
                    title: t.clone(),
                    author: get_str_or_empty(v, "author"),
                    album: get_str_or_empty(v, "album"),
                    video_id: vi.clone(),
                    duration: d.clone(),
                },
            ),
            _ => None,
        }
    }
}

/// The playlist recognizer: an object carrying string fields at
/// `browseId`, `title` and `subtitle`.
#[derive(Clone, Copy)]
pub struct PlaylistRule;

impl ExtractRule for PlaylistRule {
    type Out = YoutubeMusicPlaylistRef;

    open spec fn local(self, v: JsonValue) -> Option<PlaylistView> {
        match (
            v.spec_get_str("browseId"@),
            v.spec_get_str("title"@),
            v.spec_get_str("subtitle"@),
        ) {
            (Some(b), Some(t), Some(s)) => Some(
                PlaylistView { name: t, subtitle: s, browse_id: b },
            ),
            _ => None,
        }
    }

    fn try_match(&self, v: &JsonValue) -> (r: Option<YoutubeMusicPlaylistRef>)
        ensures
            r matches Some(x) ==> self.local(*v) == Some(x.deep_view()),
            r is None ==> self.local(*v) is None,
    {
        match (v.get_str("browseId"), v.get_str("title"), v.get_str("subtitle")) {
            (Some(b), Some(t), Some(s)) => Some(
                YoutubeMusicPlaylistRef {
                    name: t.clone(),
                    subtitle: s.clone(),
                    browse_id: b.clone(),
                },
            ),
            _ => None,
        }
    }
}

/// The playlist-info recognizer: an object carrying the enclosing album's
/// title and artist strings, used only to backfill album-context tracks.
#[derive(Clone, Copy)]
pub struct PlaylistInfoRule;

impl ExtractRule for PlaylistInfoRule {
    type Out = (String, String);

    open spec fn local(self, v: JsonValue) -> Option<(Seq<char>, Seq<char>)> {
        match (v.spec_get_str("playlistTitle"@), v.spec_get_str("playlistArtists"@)) {
            (Some(t), Some(a)) => Some((t, a)),
            _ => None,
        }
    }

    fn try_match(&self, v: &JsonValue) -> (r: Option<(String, String)>)
        ensures
            r matches Some(x) ==> self.local(*v) == Some(x.deep_view()),
            r is None ==> self.local(*v) is None,
    {
        match (v.get_str("playlistTitle"), v.get_str("playlistArtists")) {
            (Some(t), Some(a)) => Some((t.clone(), a.clone())),
            _ => None,
        }
    }
}

/// The first playlist-info match of the tree in pre-order, if any: the
/// title and artists of the enclosing album.
pub fn extract_playlist_info(v: &JsonValue) -> (r: Option<(String, String)>)
    ensures
        r matches Some(x) ==> walk(PlaylistInfoRule, *v).len() > 0 && x.deep_view() == walk(
            PlaylistInfoRule,
            *v,
        )[0],
        r is None ==> walk(PlaylistInfoRule, *v).len() == 0,
{
    let mut all = from_json(v, PlaylistInfoRule);
    if all.len() > 0 {
        let x = all.remove(0);
        Some(x)
    } else {
        None
    }
}

} // verus!

verus! {

/// The first index of `vs` whose record carries `id`, or -1 when none
/// does.
pub open spec fn find_id(vs: Seq<VideoView>, id: Seq<char>) -> int
    decreases vs.len(),
{
    if vs.len() == 0 {
        -1
    } else if vs[0].video_id == id {
        0
    } else if find_id(vs.drop_first(), id) == -1 {
        -1
    } else {
        1 + find_id(vs.drop_first(), id)
    }
}

proof fn lemma_find_id_char(vs: Seq<VideoView>, id: Seq<char>)
    ensures
        ({
            let j = find_id(vs, id);
            &&& -1 <= j < vs.len()
            &&& j >= 0 ==> vs[j].video_id == id && (forall|k: int|
                0 <= k < j ==> vs[k].video_id != id)
            &&& j == -1 ==> (forall|k: int| 0 <= k < vs.len() ==> vs[k].video_id != id)
        }),
    decreases vs.len(),
{
    if vs.len() == 0 {
    } else if vs[0].video_id == id {
    } else {
        lemma_find_id_char(vs.drop_first(), id);
        assert(forall|k: int| 1 <= k < vs.len() ==> vs[k] == vs.drop_first()[k - 1]);
    }
}

/// A record merged from album context takes the enclosing album's title
/// for an empty album field and its artists for an empty author field.
pub open spec fn spec_backfill(r: VideoView, info: Option<(Seq<char>, Seq<char>)>) -> VideoView {
    match info {
        None => r,
        Some(i) => VideoView {
            album: if r.album.len() == 0 {
                i.0
            } else {
                r.album
            },
            author: if r.author.len() == 0 {
                i.1
            } else {
                r.author
            },
            ..r
        },
    }
}

/// One step of the merge: when a record with the same track id is already
/// present, that record keeps its place and only its empty album/author
/// fields are backfilled; otherwise the album-context record is appended,
/// backfilled the same way.
pub open spec fn merge_step(
    base: Seq<VideoView>,
    a: VideoView,
    info: Option<(Seq<char>, Seq<char>)>,
) -> Seq<VideoView> {
    let j = find_id(base, a.video_id);
    if j >= 0 {
        base.update(j, spec_backfill(base[j], info))
    } else {
        base.push(spec_backfill(a, info))
    }
}

/// The whole merge pass: every album-context record is folded into the
/// plain track records, in order of discovery.
pub open spec fn merge_videos(
    base: Seq<VideoView>,
    extras: Seq<VideoView>,
    info: Option<(Seq<char>, Seq<char>)>,
) -> Seq<VideoView>
    decreases extras.len(),
{
    if extras.len() == 0 {
        base
    } else {
        merge_videos(merge_step(base, extras[0], info), extras.drop_first(), info)
    }
}

proof fn lemma_merge_snoc(
    base: Seq<VideoView>,
    extras: Seq<VideoView>,
    a: VideoView,
    info: Option<(Seq<char>, Seq<char>)>,
)
    ensures
        merge_videos(base, extras.push(a), info) == merge_step(
            merge_videos(base, extras, info),
            a,
            info,
        ),
    decreases extras.len(),
{
    if extras.len() == 0 {
        assert(extras.push(a)[0] == a);
        assert(extras.push(a).drop_first() =~= Seq::<VideoView>::empty());
        assert(merge_videos(merge_step(base, a, info), Seq::<VideoView>::empty(), info)
            == merge_step(base, a, info));
    } else {
        assert(extras.push(a)[0] == extras[0]);
        assert(extras.push(a).drop_first() =~= extras.drop_first().push(a));
        lemma_merge_snoc(merge_step(base, extras[0], info), extras.drop_first(), a, info);
    }
}

/// An album-context record whose track id no record of the list yet
/// carries is appended, with only its empty album and author fields
/// backfilled from the playlist info (and untouched when there is none).
pub proof fn lemma_merge_appends_new_id(
    base: Seq<VideoView>,
    a: VideoView,
    info: Option<(Seq<char>, Seq<char>)>,
)
    requires
        forall|i: int| 0 <= i < base.len() ==> (#[trigger] base[i]).video_id != a.video_id,
    ensures
        merge_step(base, a, info) == base.push(spec_backfill(a, info)),
{
    lemma_find_id_char(base, a.video_id);
}

/// An album-context record whose track id is already carried adds no
/// record: the list keeps its length and order, and only the first
/// record of that id has its empty album and author fields backfilled.
pub proof fn lemma_merge_dedups_known_id(
    base: Seq<VideoView>,
    a: VideoView,
    info: Option<(Seq<char>, Seq<char>)>,
)
    requires
        exists|i: int| 0 <= i < base.len() && (#[trigger] base[i]).video_id == a.video_id,
    ensures
        ({
            let j = find_id(base, a.video_id);
            &&& 0 <= j < base.len()
            &&& base[j].video_id == a.video_id
            &&& forall|k: int| 0 <= k < j ==> (#[trigger] base[k]).video_id != a.video_id
            &&& merge_step(base, a, info) == base.update(j, spec_backfill(base[j], info))
            &&& merge_step(base, a, info).len() == base.len()
        }),
{
    lemma_find_id_char(base, a.video_id);
}

/// The info pair used by the merge: the first playlist-info match, if any.
pub open spec fn spec_first_info(infos: Seq<(Seq<char>, Seq<char>)>) -> Option<
    (Seq<char>, Seq<char>),
> {
    if infos.len() == 0 {
        None
    } else {
        Some(infos[0])
    }
}

/// First index of `videos` holding `id`, by scan.
fn find_index(videos: &Vec<YoutubeMusicVideoRef>, id: &String) -> (r: Option<usize>)
    ensures
        ({
            let j = find_id(videos.deep_view(), id@);
            match r {
                Some(u) => u == j && u < videos@.len(),
                None => j == -1,
            }
        }),
{
    proof {
        lemma_find_id_char(videos.deep_view(), id@);
    }
    let n = videos.len();
    for i in 0..n
        invariant
            n == videos.len(),
            forall|k: int| 0 <= k < i ==> videos.deep_view()[k].video_id != id@,
    {
        if str_eq(videos[i].video_id.as_str(), id.as_str()) {
            proof {
                lemma_find_id_char(videos.deep_view(), id@);
                assert(videos.deep_view()[i as int].video_id == id@);
            }
            return Some(i);
        }
        assert(videos.deep_view()[i as int].video_id != id@);
    }
    proof {
        lemma_find_id_char(videos.deep_view(), id@);
    }
    None
}

/// Extracts the track records of a response tree and merges in the
/// album-context records: plain track matches win, an album-context match
/// with a new track id is appended, and empty album/author fields of a
/// merged record are backfilled from the playlist info of the same tree.
#[verifier::loop_isolation(false)]
#[verifier::rlimit(100)]
pub fn parse_playlist(v: &JsonValue) -> (out: Vec<YoutubeMusicVideoRef>)
    ensures
        out.deep_view() == merge_videos(
            walk(TrackRule, *v),
            walk(AlbumTrackRule, *v),
            spec_first_info(walk(PlaylistInfoRule, *v)),
        ),
{
    let mut videos = from_json(v, TrackRule);
    let info = extract_playlist_info(v);
    let extras = from_json(v, AlbumTrackRule);
    let ghost base0 = videos.deep_view();
    let ghost extras_dv = extras.deep_view();
    let ghost info_v = spec_first_info(walk(PlaylistInfoRule, *v));
    proof {
        assert(extras_dv.take(0) =~= Seq::<VideoView>::empty());
    }
    let n = extras.len();
    for i in 0..n
        invariant
            n == extras.len(),
            videos.deep_view() == merge_videos(base0, extras_dv.take(i as int), info_v),
    {
        let a = &extras[i];
        let ghost prev = videos.deep_view();
        match find_index(&videos, &a.video_id) {
            Some(j) => {
                let album_empty = videos[j].album.as_str().is_empty();
                let author_empty = videos[j].author.as_str().is_empty();
                let rec = YoutubeMusicVideoRef {
                    title: videos[j].title.clone(),
                    author: match &info {
                        Some(p) if author_empty => p.1.clone(),
                        _ => videos[j].author.clone(),
                    },
                    album: match &info {
                        Some(p) if album_empty => p.0.clone(),
                        _ => videos[j].album.clone(),
                    },
                    video_id: videos[j].video_id.clone(),
                    duration: videos[j].duration.clone(),
                };
                assert(rec.deep_view() == spec_backfill(prev[j as int], info_v));
                videos[j] = rec;
                assert(videos.deep_view() =~= prev.update(
                    j as int,
                    spec_backfill(prev[j as int], info_v),
                ));
            },
            None => {
                let album_empty = a.album.as_str().is_empty();
                let author_empty = a.author.as_str().is_empty();
                let rec = YoutubeMusicVideoRef {
                    title: a.title.clone(),
                    author: match &info {
                        Some(p) if author_empty => p.1.clone(),
                        _ => a.author.clone(),
                    },
                    album: match &info {
                        Some(p) if album_empty => p.0.clone(),
                        _ => a.album.clone(),
                    },
                    video_id: a.video_id.clone(),
                    duration: a.duration.clone(),
                };
                assert(rec.deep_view() == spec_backfill(extras_dv[i as int], info_v));
                videos.push(rec);
                assert(videos.deep_view() =~= prev.push(
                    spec_backfill(extras_dv[i as int], info_v),
                ));
            },
        }
        proof {
            assert(videos.deep_view() == merge_step(prev, extras_dv[i as int], info_v));
            lemma_merge_snoc(base0, extras_dv.take(i as int), extras_dv[i as int], info_v);
            assert(extras_dv.take(i + 1) =~= extras_dv.take(i as int).push(extras_dv[i as int]));
        }
    }
    proof {
        assert(extras_dv.take(n as int) =~= extras_dv);
    }
    videos
}

} // verus!
