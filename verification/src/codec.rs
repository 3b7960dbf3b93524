//! The binary cache codec: a flat concatenation of records, each record
//! five length-prefixed UTF-8 strings in fixed order, each length prefix
//! a variable-length unsigned integer — seven value bits per byte, the
//! high bit marking a continuation, least significant group first.
//!
//! End of input is detected only between records; running out of bytes
//! inside a record, a length that overflows the 32-bit range, or invalid
//! UTF-8 is a hard read failure.

use vstd::arithmetic::div_mod::lemma_fundamental_div_mod;
use vstd::prelude::*;
use vstd::utf8::decode_utf8;
use vstd::utf8::encode_utf8;
use vstd::utf8::encode_utf8_decode_utf8;
use vstd::utf8::encode_utf8_valid_utf8;
use vstd::utf8::valid_utf8;

use crate::types::VideoView;
use crate::types::YoutubeMusicVideoRef;

verus! {

/// The encoding of one unsigned value: seven bits per byte, low group
/// first, high bit set on every byte but the last.
pub open spec fn varint_bytes(n: nat) -> Seq<u8>
    decreases n,
{
    if n < 0x80 {
        seq![n as u8]
    } else {
        seq![(0x80 + (n % 0x80)) as u8] + varint_bytes(n / 0x80)
    }
}

/// The value and byte count read by a varint decode at the head of
/// `bytes`, if one terminates there.
pub open spec fn varint_decode(bytes: Seq<u8>) -> Option<(nat, int)>
    decreases bytes.len(),
{
    if bytes.len() == 0 {
        None
    } else if bytes[0] < 0x80 {
        Some((bytes[0] as nat, 1))
    } else {
        match varint_decode(bytes.drop_first()) {
            None => None,
            Some(p) => Some(((bytes[0] - 0x80) as nat + 0x80 * p.0, p.1 + 1)),
        }
    }
}

/// Decoding an encoded value in front of anything reads back exactly
/// that value, consuming exactly the encoding.
pub proof fn lemma_varint_roundtrip(n: nat, rest: Seq<u8>)
    ensures
        varint_decode(varint_bytes(n) + rest) == Some((n, varint_bytes(n).len() as int)),
    decreases n,
{
    let bytes = varint_bytes(n) + rest;
    if n < 0x80 {
        assert(bytes[0] == n as u8);
    } else {
        assert(bytes[0] == (0x80 + (n % 0x80)) as u8);
        assert(bytes.drop_first() =~= varint_bytes(n / 0x80) + rest);
        lemma_varint_roundtrip(n / 0x80, rest);
        lemma_fundamental_div_mod(n as int, 0x80);
    }
}

/// One length-prefixed string: the byte count of its UTF-8 form, then
/// that form.
pub open spec fn str_bytes(s: Seq<char>) -> Seq<u8> {
    varint_bytes(encode_utf8(s).len()) + encode_utf8(s)
}

/// One record: its five fields in fixed order.
pub open spec fn video_bytes(v: VideoView) -> Seq<u8> {
    str_bytes(v.title) + str_bytes(v.author) + str_bytes(v.album) + str_bytes(v.video_id)
        + str_bytes(v.duration)
}

/// A whole cache image: the records in order, nothing else.
pub open spec fn videos_bytes(vs: Seq<VideoView>) -> Seq<u8>
    decreases vs.len(),
{
    if vs.len() == 0 {
        Seq::empty()
    } else {
        video_bytes(vs[0]) + videos_bytes(vs.drop_first())
    }
}

/// A string whose length prefix fits the codec's 32-bit range.
pub open spec fn str_encodable(s: Seq<char>) -> bool {
    encode_utf8(s).len() <= u32::MAX
}

/// A record all of whose fields are encodable.
pub open spec fn video_encodable(v: VideoView) -> bool {
    str_encodable(v.title) && str_encodable(v.author) && str_encodable(v.album)
        && str_encodable(v.video_id) && str_encodable(v.duration)
}

/// A record set all of whose records are encodable.
pub open spec fn all_encodable(vs: Seq<VideoView>) -> bool {
    forall|i: int| 0 <= i < vs.len() ==> video_encodable(#[trigger] vs[i])
}

/// The string and byte count read by a string decode at the head of
/// `bytes`, if the prefix terminates, fits the 32-bit range, is covered
/// by the input, and holds valid UTF-8.
pub open spec fn take_str(bytes: Seq<u8>) -> Option<(Seq<char>, int)> {
    match varint_decode(bytes) {
        None => None,
        Some(p) => if p.0 > u32::MAX {
            None
        } else if p.1 + p.0 > bytes.len() {
            None
        } else {
            let payload = bytes.subrange(p.1, p.1 + p.0);
            if valid_utf8(payload) {
                Some((decode_utf8(payload), p.1 + p.0))
            } else {
                None
            }
        },
    }
}

/// The record and byte count read by a record decode at the head of
/// `bytes`, if all five fields read.
pub open spec fn take_video(bytes: Seq<u8>) -> Option<(VideoView, int)> {
    match take_str(bytes) {
        None => None,
        Some(p1) => match take_str(bytes.skip(p1.1)) {
            None => None,
            Some(p2) => match take_str(bytes.skip(p1.1 + p2.1)) {
                None => None,
                Some(p3) => match take_str(bytes.skip(p1.1 + p2.1 + p3.1)) {
                    None => None,
                    Some(p4) => match take_str(bytes.skip(p1.1 + p2.1 + p3.1 + p4.1)) {
                        None => None,
                        Some(p5) => Some(
                            (
                                VideoView {
                                    title: p1.0,
                                    author: p2.0,
                                    album: p3.0,
                                    video_id: p4.0,
                                    duration: p5.0,
                                },
                                p1.1 + p2.1 + p3.1 + p4.1 + p5.1,
                            ),
                        ),
                    },
                },
            },
        },
    }
}

/// The record set of a whole cache image, if every record reads and the
/// input ends exactly between records.
pub open spec fn decode_videos(bytes: Seq<u8>) -> Option<Seq<VideoView>>
    decreases bytes.len(),
{
    if bytes.len() == 0 {
        Some(Seq::empty())
    } else {
        match take_video(bytes) {
            None => None,
            Some(p) => if p.1 < 1 || p.1 > bytes.len() {
                None
            } else {
                match decode_videos(bytes.skip(p.1)) {
                    None => None,
                    Some(rest) => Some(seq![p.0] + rest),
                }
            },
        }
    }
}

/// Relies on String::from_utf8: it succeeds exactly on valid UTF-8 and
/// returns its decoding.
#[verifier::external_body]
fn bytes_to_string(v: Vec<u8>) -> (r: Option<String>)
    ensures
        match r {
            Some(s) => valid_utf8(v@) && s@ == decode_utf8(v@),
            None => !valid_utf8(v@),
        },
{
    String::from_utf8(v).ok()
}

/// Appends the varint encoding of `n`.
fn write_varint(n: u64, out: &mut Vec<u8>)
    ensures
        final(out)@ == old(out)@ + varint_bytes(n as nat),
    decreases n,
{
    if n < 0x80 {
        out.push(n as u8);
        assert(final(out)@ =~= old(out)@ + varint_bytes(n as nat));
    } else {
        out.push((0x80 + (n % 0x80)) as u8);
        write_varint(n / 0x80, out);
        assert(final(out)@ =~= old(out)@ + varint_bytes(n as nat));
    }
}

/// Appends one length-prefixed string.
pub fn write_str(s: &String, out: &mut Vec<u8>)
    ensures
        final(out)@ == old(out)@ + str_bytes(s@),
{
    let mut payload = s.as_str().as_bytes_vec();
    write_varint(payload.len() as u64, out);
    out.append(&mut payload);
    assert(final(out)@ =~= old(out)@ + str_bytes(s@));
}

/// Appends one record: its five fields in fixed order.
pub fn write_video(v: &YoutubeMusicVideoRef, out: &mut Vec<u8>)
    ensures
        final(out)@ == old(out)@ + video_bytes(v@),
{
    write_str(&v.title, out);
    write_str(&v.author, out);
    write_str(&v.album, out);
    write_str(&v.video_id, out);
    write_str(&v.duration, out);
    assert(final(out)@ =~= old(out)@ + video_bytes(v@));
}

fn write_videos_from(videos: &Vec<YoutubeMusicVideoRef>, i: usize, out: &mut Vec<u8>)
    requires
        i <= videos@.len(),
    ensures
        final(out)@ == old(out)@ + videos_bytes(videos.deep_view().skip(i as int)),
    decreases videos@.len() - i,
{
    if i < videos.len() {
        write_video(&videos[i], out);
        write_videos_from(videos, i + 1, out);
        proof {
            let dv = videos.deep_view();
            assert(dv.skip(i as int)[0] == dv[i as int]);
            assert(dv.skip(i as int).drop_first() =~= dv.skip(i + 1));
            assert(final(out)@ =~= old(out)@ + videos_bytes(dv.skip(i as int)));
        }
    } else {
        assert(videos.deep_view().skip(i as int) =~= Seq::<VideoView>::empty());
        assert(final(out)@ =~= old(out)@ + videos_bytes(videos.deep_view().skip(i as int)));
    }
}

/// Encodes a record set into a cache image, append-only in record order.
pub fn write_videos(videos: &Vec<YoutubeMusicVideoRef>) -> (r: Vec<u8>)
    ensures
        r@ == videos_bytes(videos.deep_view()),
{
    let mut out: Vec<u8> = Vec::new();
    assert(videos.deep_view().skip(0) =~= videos.deep_view());
    write_videos_from(videos, 0, &mut out);
    assert(out@ =~= videos_bytes(videos.deep_view()));
    out
}

/// Reads one varint. Fails when the input ends inside the value or the
/// value exceeds the 32-bit range.
fn read_varint(bytes: &Vec<u8>, pos: usize) -> (r: Option<(u32, usize)>)
    requires
        pos <= bytes@.len(),
    ensures
        match r {
            Some(p) => {
                &&& varint_decode(bytes@.skip(pos as int)) == Some((p.0 as nat, p.1 as int))
                &&& 1 <= p.1 <= bytes@.len() - pos
            },
            None => match varint_decode(bytes@.skip(pos as int)) {
                None => true,
                Some(q) => q.0 > u32::MAX,
            },
        },
    decreases bytes@.len() - pos,
{
    if pos >= bytes.len() {
        return None;
    }
    assert(bytes@.skip(pos as int)[0] == bytes@[pos as int]);
    assert(bytes@.skip(pos as int).drop_first() =~= bytes@.skip(pos + 1));
    let b = bytes[pos];
    if b < 0x80 {
        return Some((b as u32, 1));
    }
    match read_varint(bytes, pos + 1) {
        None => None,
        Some(p) => {
            let low = (b - 0x80) as u32;
            if p.0 <= (u32::MAX - low) / 0x80 {
                assert(low + 0x80 * p.0 <= u32::MAX) by (nonlinear_arith)
                    requires
                        low < 0x80,
                        p.0 <= (u32::MAX - low) / 0x80,
                ;
                Some((low + 0x80 * p.0, p.1 + 1))
            } else {
                assert(low + 0x80 * (p.0 as nat) > u32::MAX) by (nonlinear_arith)
                    requires
                        low < 0x80,
                        p.0 > (u32::MAX - low) / 0x80,
                ;
                None
            }
        },
    }
}

/// Reads one length-prefixed string and advances the cursor past it; on
/// failure the cursor stands where it stood.
pub fn read_str(bytes: &Vec<u8>, pos: &mut usize) -> (r: Option<String>)
    requires
        *old(pos) <= bytes@.len(),
    ensures
        match r {
            Some(s) => {
                &&& take_str(bytes@.skip(*old(pos) as int)) == Some(
                    (s@, *final(pos) - *old(pos)),
                )
                &&& *old(pos) < *final(pos) <= bytes@.len()
            },
            None => take_str(bytes@.skip(*old(pos) as int)) is None && *final(pos) == *old(
                pos,
            ),
        },
{
    let ghost pos0 = *pos as int;
    let len = bytes.len();
    match read_varint(bytes, *pos) {
        None => None,
        Some(p) => {
            let start = *pos + p.1;
            let n = p.0 as usize;
            if n > len - start {
                return None;
            }
            let end = start + n;
            let payload = copy_range(bytes, start, end);
            proof {
                assert(bytes@.skip(pos0).subrange(p.1 as int, p.1 + p.0) =~= bytes@.subrange(
                    start as int,
                    end as int,
                ));
            }
            match bytes_to_string(payload) {
                None => None,
                Some(s) => {
                    *pos = end;
                    Some(s)
                },
            }
        },
    }
}

/// The bytes of `bytes[start..end]` as their own vector.
fn copy_range(bytes: &Vec<u8>, start: usize, end: usize) -> (r: Vec<u8>)
    requires
        start <= end <= bytes@.len(),
    ensures
        r@ == bytes@.subrange(start as int, end as int),
{
    let mut r: Vec<u8> = Vec::new();
    assert(r@ =~= bytes@.subrange(start as int, start as int));
    for i in start..end
        invariant
            start <= end <= bytes@.len(),
            r@ =~= bytes@.subrange(start as int, i as int),
    {
        r.push(bytes[i]);
        assert(r@ =~= bytes@.subrange(start as int, i + 1));
    }
    r
}

/// Reads one record: five strings in fixed order; on failure the cursor
/// stands where it stood.
pub fn read_video(bytes: &Vec<u8>, pos: &mut usize) -> (r: Option<YoutubeMusicVideoRef>)
    requires
        *old(pos) <= bytes@.len(),
    ensures
        match r {
            Some(v) => {
                &&& take_video(bytes@.skip(*old(pos) as int)) == Some(
                    (v@, *final(pos) - *old(pos)),
                )
                &&& *old(pos) < *final(pos) <= bytes@.len()
            },
            None => take_video(bytes@.skip(*old(pos) as int)) is None && *final(pos) == *old(
                pos,
            ),
        },
{
    let start = *pos;
    let ghost rel = bytes@.skip(start as int);
    let title = match read_str(bytes, pos) {
        Some(s) => s,
        None => {
            return None;
        },
    };
    assert(bytes@.skip(start as int).skip(*pos - start) =~= bytes@.skip(*pos as int));
    let author = match read_str(bytes, pos) {
        Some(s) => s,
        None => {
            *pos = start;
            return None;
        },
    };
    assert(bytes@.skip(start as int).skip(*pos - start) =~= bytes@.skip(*pos as int));
    let album = match read_str(bytes, pos) {
        Some(s) => s,
        None => {
            *pos = start;
            return None;
        },
    };
    assert(bytes@.skip(start as int).skip(*pos - start) =~= bytes@.skip(*pos as int));
    let video_id = match read_str(bytes, pos) {
        Some(s) => s,
        None => {
            *pos = start;
            return None;
        },
    };
    assert(bytes@.skip(start as int).skip(*pos - start) =~= bytes@.skip(*pos as int));
    let duration = match read_str(bytes, pos) {
        Some(s) => s,
        None => {
            *pos = start;
            return None;
        },
    };
    Some(YoutubeMusicVideoRef { title, author, album, video_id, duration })
}

/// Decodes a whole cache image. Fails — reporting corruption, returning
/// nothing partial — unless every record reads and the input ends
/// exactly between records.
pub fn read_videos(bytes: &Vec<u8>) -> (r: Option<Vec<YoutubeMusicVideoRef>>)
    ensures
        match r {
            Some(vs) => decode_videos(bytes@) == Some(vs.deep_view()),
            None => decode_videos(bytes@) is None,
        },
{
    let mut out: Vec<YoutubeMusicVideoRef> = Vec::new();
    let mut pos: usize = 0;
    assert(bytes@.skip(0) =~= bytes@);
    loop
        invariant
            pos <= bytes@.len(),
            match decode_videos(bytes@.skip(pos as int)) {
                Some(rest) => decode_videos(bytes@) == Some(out.deep_view() + rest),
                None => decode_videos(bytes@) is None,
            },
        decreases bytes@.len() - pos,
    {
        if pos >= bytes.len() {
            assert(bytes@.skip(pos as int) =~= Seq::<u8>::empty());
            assert(out.deep_view() + Seq::<VideoView>::empty() =~= out.deep_view());
            return Some(out);
        }
        let ghost before = out.deep_view();
        let ghost at = pos as int;
        match read_video(bytes, &mut pos) {
            None => {
                return None;
            },
            Some(v) => {
                proof {
                    assert(bytes@.skip(at).skip(pos - at) =~= bytes@.skip(pos as int));
                }
                out.push(v);
                proof {
                    assert(out.deep_view() =~= before.push(v@));
                    match decode_videos(bytes@.skip(pos as int)) {
                        Some(rest2) => {
                            assert(before + (seq![v@] + rest2) =~= before.push(v@) + rest2);
                        },
                        None => {},
                    }
                }
            },
        }
    }
}

} // verus!

verus! {

proof fn lemma_varint_bytes_pos(n: nat)
    ensures
        varint_bytes(n).len() >= 1,
{
}

proof fn lemma_str_bytes_pos(s: Seq<char>)
    ensures
        str_bytes(s).len() >= 1,
{
    lemma_varint_bytes_pos(encode_utf8(s).len());
}

proof fn lemma_video_bytes_pos(v: VideoView)
    ensures
        video_bytes(v).len() >= 5,
{
    lemma_str_bytes_pos(v.title);
    lemma_str_bytes_pos(v.author);
    lemma_str_bytes_pos(v.album);
    lemma_str_bytes_pos(v.video_id);
    lemma_str_bytes_pos(v.duration);
}

/// Decoding an encoded string in front of anything reads back exactly
/// that string.
proof fn lemma_str_roundtrip(s: Seq<char>, rest: Seq<u8>)
    requires
        str_encodable(s),
    ensures
        take_str(str_bytes(s) + rest) == Some((s, str_bytes(s).len() as int)),
{
    let utf8 = encode_utf8(s);
    let m = utf8.len();
    let bytes = str_bytes(s) + rest;
    assert(bytes =~= varint_bytes(m) + (utf8 + rest));
    lemma_varint_roundtrip(m, utf8 + rest);
    let vlen = varint_bytes(m).len() as int;
    assert(bytes.subrange(vlen, vlen + m) =~= utf8);
    encode_utf8_valid_utf8(s);
    encode_utf8_decode_utf8(s);
}

/// Removing the final byte of an encoded string makes it unreadable.
proof fn lemma_str_truncated(s: Seq<char>)
    ensures
        take_str(str_bytes(s).drop_last()) is None,
{
    let utf8 = encode_utf8(s);
    let m = utf8.len();
    if m == 0 {
        assert(varint_bytes(0) =~= seq![0u8]);
        assert(str_bytes(s).drop_last() =~= Seq::<u8>::empty());
    } else {
        let trunc = str_bytes(s).drop_last();
        assert(trunc =~= varint_bytes(m) + utf8.drop_last());
        lemma_varint_roundtrip(m, utf8.drop_last());
        let vlen = varint_bytes(m).len() as int;
        assert(trunc.len() == vlen + m - 1);
    }
}

/// Decoding an encoded record in front of anything reads back exactly
/// that record.
#[verifier::rlimit(100)]
proof fn lemma_video_roundtrip(v: VideoView, rest: Seq<u8>)
    requires
        video_encodable(v),
    ensures
        take_video(video_bytes(v) + rest) == Some((v, video_bytes(v).len() as int)),
{
    let f1 = str_bytes(v.title);
    let f2 = str_bytes(v.author);
    let f3 = str_bytes(v.album);
    let f4 = str_bytes(v.video_id);
    let f5 = str_bytes(v.duration);
    let bytes = video_bytes(v) + rest;
    assert(bytes =~= f1 + (f2 + (f3 + (f4 + (f5 + rest)))));
    lemma_str_roundtrip(v.title, f2 + (f3 + (f4 + (f5 + rest))));
    assert(bytes.skip(f1.len() as int) =~= f2 + (f3 + (f4 + (f5 + rest))));
    lemma_str_roundtrip(v.author, f3 + (f4 + (f5 + rest)));
    assert(bytes.skip(f1.len() + f2.len() as int) =~= f3 + (f4 + (f5 + rest)));
    lemma_str_roundtrip(v.album, f4 + (f5 + rest));
    assert(bytes.skip(f1.len() + f2.len() + f3.len() as int) =~= f4 + (f5 + rest));
    lemma_str_roundtrip(v.video_id, f5 + rest);
    assert(bytes.skip(f1.len() + f2.len() + f3.len() + f4.len() as int) =~= f5 + rest);
    lemma_str_roundtrip(v.duration, rest);
    assert(VideoView {
        title: v.title,
        author: v.author,
        album: v.album,
        video_id: v.video_id,
        duration: v.duration,
    } == v);
}

/// Removing the final byte of an encoded record makes it unreadable.
#[verifier::rlimit(100)]
proof fn lemma_video_truncated(v: VideoView)
    requires
        video_encodable(v),
    ensures
        take_video(video_bytes(v).drop_last()) is None,
{
    let f1 = str_bytes(v.title);
    let f2 = str_bytes(v.author);
    let f3 = str_bytes(v.album);
    let f4 = str_bytes(v.video_id);
    let f5 = str_bytes(v.duration);
    lemma_str_bytes_pos(v.duration);
    let trunc = video_bytes(v).drop_last();
    assert(trunc =~= f1 + (f2 + (f3 + (f4 + f5.drop_last()))));
    lemma_str_roundtrip(v.title, f2 + (f3 + (f4 + f5.drop_last())));
    assert(trunc.skip(f1.len() as int) =~= f2 + (f3 + (f4 + f5.drop_last())));
    lemma_str_roundtrip(v.author, f3 + (f4 + f5.drop_last()));
    assert(trunc.skip(f1.len() + f2.len() as int) =~= f3 + (f4 + f5.drop_last()));
    lemma_str_roundtrip(v.album, f4 + f5.drop_last());
    assert(trunc.skip(f1.len() + f2.len() + f3.len() as int) =~= f4 + f5.drop_last());
    lemma_str_roundtrip(v.video_id, f5.drop_last());
    assert(trunc.skip(f1.len() + f2.len() + f3.len() + f4.len() as int) =~= f5.drop_last());
    lemma_str_truncated(v.duration);
}

/// Encoding any encodable record set and decoding the image back yields
/// exactly the original records, in order.
#[verifier::rlimit(100)]
pub proof fn lemma_cache_round_trip(vs: Seq<VideoView>)
    requires
        all_encodable(vs),
    ensures
        decode_videos(videos_bytes(vs)) == Some(vs),
    decreases vs.len(),
{
    if vs.len() == 0 {
        assert(vs =~= Seq::<VideoView>::empty());
    } else {
        let b0 = video_bytes(vs[0]);
        let tail = videos_bytes(vs.drop_first());
        let bytes = videos_bytes(vs);
        lemma_video_bytes_pos(vs[0]);
        lemma_video_roundtrip(vs[0], tail);
        assert(bytes.skip(b0.len() as int) =~= tail);
        assert(all_encodable(vs.drop_first())) by {
            assert(forall|i: int|
                0 <= i < vs.drop_first().len() ==> vs.drop_first()[i] == vs[i + 1]);
        }
        lemma_cache_round_trip(vs.drop_first());
        assert(seq![vs[0]] + vs.drop_first() =~= vs);
    }
}

/// A valid image of at least one record with its final byte removed
/// does not decode: truncation is detected, never a partial record set.
#[verifier::rlimit(100)]
pub proof fn lemma_cache_truncation_fails(vs: Seq<VideoView>)
    requires
        all_encodable(vs),
        vs.len() >= 1,
    ensures
        decode_videos(videos_bytes(vs).drop_last()) is None,
    decreases vs.len(),
{
    let b0 = video_bytes(vs[0]);
    let tail = videos_bytes(vs.drop_first());
    lemma_video_bytes_pos(vs[0]);
    let trunc = videos_bytes(vs).drop_last();
    if vs.len() == 1 {
        assert(trunc =~= b0.drop_last());
        lemma_video_truncated(vs[0]);
    } else {
        lemma_video_bytes_pos(vs.drop_first()[0]);
        assert(tail.len() >= 1);
        assert(trunc =~= b0 + tail.drop_last());
        lemma_video_roundtrip(vs[0], tail.drop_last());
        assert(trunc.skip(b0.len() as int) =~= tail.drop_last());
        assert(all_encodable(vs.drop_first())) by {
            assert(forall|i: int|
                0 <= i < vs.drop_first().len() ==> vs.drop_first()[i] == vs[i + 1]);
        }
        lemma_cache_truncation_fails(vs.drop_first());
    }
}

} // verus!
