//! What the server tells the shared media database of a probed stream.

use vstd::prelude::*;

use crate::media::FrameRate;
use crate::media::Media;
use crate::media::MediaKind;
use crate::media::MediaSourceInfo;
use crate::media::MediaStream;
use crate::media::MediaStreamType;
use crate::media::StreamDescriptor;
use crate::media::VideoRangeType;
use crate::transcode::low_i32;
use crate::transcode::narrow_signed;
use crate::transcode::narrowed_signed;
use crate::transcode::text_or;
use crate::transcode::text_or_default;
use crate::transcode::value_or;
use crate::transcode::value_or_default;

verus! {

/// A picture track.
#[derive(Debug)]
pub struct VideoTrackPayload {
    pub idx: i32,
    pub codec: String,
    pub width: i32,
    pub height: i32,
    pub fps: Option<FrameRate>,
    pub avg_fps: Option<FrameRate>,
    pub bit_rate: Option<i64>,
    pub bit_depth: Option<i32>,
    pub profile: Option<String>,
    pub codec_tag: Option<String>,
    pub comment: Option<String>,
    pub title: Option<String>,
    pub language: Option<String>,
    pub color_primaries: Option<String>,
    pub color_range: Option<String>,
    pub color_space: Option<String>,
    pub color_transfer: Option<String>,
    pub aspect_ratio: Option<String>,
    pub rotation: Option<i32>,
    pub is_default: bool,
    pub is_forced: bool,
    pub is_external: bool,
    pub is_hearing_impaired: bool,
    pub is_interlaced: bool,
    pub hdr10_plus_present: bool,
    pub dv_profile: Option<i32>,
    pub dv_level: Option<i32>,
    pub dv_version_major: Option<i32>,
    pub dv_version_minor: Option<i32>,
    pub dv_bl_signal_compat_id: Option<i32>,
    pub dv_rpu_present: bool,
    pub dv_bl_present: bool,
    pub dv_el_present: bool,
    pub is_anamorphic: bool,
    pub level: Option<i32>,
    pub ref_frames: Option<i32>,
}

/// A sound track.
#[derive(Debug)]
pub struct AudioTrackPayload {
    pub idx: i32,
    pub codec: String,
    pub channels: i32,
    pub sample_rate: i32,
    pub bit_rate: Option<i64>,
    pub bit_depth: Option<i32>,
    pub channel_layout: Option<String>,
    pub profile: Option<String>,
    pub codec_tag: Option<String>,
    pub comment: Option<String>,
    pub title: Option<String>,
    pub language: Option<String>,
    pub is_default: bool,
    pub is_forced: bool,
    pub is_external: bool,
    pub is_hearing_impaired: bool,
}

/// A subtitle track.
#[derive(Debug)]
pub struct SubtitleTrackPayload {
    pub idx: i32,
    pub codec: Option<String>,
    pub title: Option<String>,
    pub language: Option<String>,
    pub comment: Option<String>,
    pub is_default: bool,
    pub is_forced: bool,
    pub is_external: bool,
    pub is_hearing_impaired: bool,
}

/// A track of a file.
#[derive(Debug)]
pub enum TrackPayload {
    Video(VideoTrackPayload),
    Audio(AudioTrackPayload),
    Subtitle(SubtitleTrackPayload),
}

/// Identifiers in public databases.
#[derive(Debug)]
pub struct SharedIds {
    pub imdb_id: Option<String>,
    pub tmdb_id: Option<i64>,
    pub tvdb_id: Option<i64>,
    pub kitsu_id: Option<i64>,
}

/// What the media database is told. The id of this server is put to it when it is
/// sent.
#[derive(Debug)]
pub struct MediaInfo {
    pub kind: &'static str,
    pub filename: String,
    pub torrent_info_hash: Option<String>,
    pub torrent_file_idx: Option<i32>,
    pub container: String,
    pub size: i64,
    pub duration_ticks: i64,
    pub bitrate: Option<i64>,
    pub season: Option<i32>,
    pub episode: Option<i32>,
    pub external_ids: Option<SharedIds>,
    pub tracks: Vec<TrackPayload>,
}

// ---------------------------------------------------------------------------
// Tracks
// ---------------------------------------------------------------------------

/// A flag that is there and is not zero.
pub open spec fn is_raised(flag: Option<i64>) -> bool {
    flag matches Some(v) && v != 0
}

fn raised(flag: Option<i64>) -> (r: bool)
    ensures
        r == is_raised(flag),
{
    match flag {
        Some(v) => v != 0,
        None => false,
    }
}

/// The low half of a number, zero where there is none.
pub open spec fn narrow_or_zero(v: Option<i64>) -> i32 {
    low_i32(value_or(v, 0))
}

fn narrowed_or_zero(v: Option<i64>) -> (r: i32)
    ensures
        r == narrow_or_zero(v),
{
    let n: i64 = value_or_default(v, 0);
    #[verifier::truncate]
    (n as i32)
}

fn narrowed_index(v: i64) -> (r: i32)
    ensures
        r == low_i32(v),
{
    #[verifier::truncate]
    (v as i32)
}

/// A picture track with what the probe says of the stream.
pub open spec fn is_video_track(t: VideoTrackPayload, s: MediaStream) -> bool {
    &&& t.idx == low_i32(s.index)
    &&& t.codec@ == text_or(s.codec, ""@)
    &&& t.width == narrow_or_zero(s.width)
    &&& t.height == narrow_or_zero(s.height)
    &&& t.fps == s.real_frame_rate
    &&& t.avg_fps == s.average_frame_rate
    &&& t.bit_rate == s.bit_rate
    &&& t.bit_depth == narrow_signed(s.bit_depth)
    &&& t.profile == s.profile
    &&& t.codec_tag == s.codec_tag
    &&& t.comment == s.comment
    &&& t.title == s.title
    &&& t.language == s.language
    &&& t.color_primaries == s.color_primaries
    &&& t.color_range == s.color_range
    &&& t.color_space == s.color_space
    &&& t.color_transfer == s.color_transfer
    &&& t.aspect_ratio == s.aspect_ratio
    &&& t.rotation == narrow_signed(s.rotation)
    &&& t.is_default == value_or(s.is_default, false)
    &&& t.is_forced == s.is_forced
    &&& t.is_external == s.is_external
    &&& t.is_hearing_impaired == s.is_hearing_impaired
    &&& t.is_interlaced == s.is_interlaced
    &&& t.hdr10_plus_present == (s.video_range_type == Some(VideoRangeType::Hdr10Plus))
    &&& t.dv_profile == narrow_signed(s.dv_profile)
    &&& t.dv_level == narrow_signed(s.dv_level)
    &&& t.dv_version_major == narrow_signed(s.dv_version_major)
    &&& t.dv_version_minor == narrow_signed(s.dv_version_minor)
    &&& t.dv_bl_signal_compat_id == narrow_signed(s.dv_bl_signal_compatibility_id)
    &&& t.dv_rpu_present == is_raised(s.rpu_present_flag)
    &&& t.dv_bl_present == is_raised(s.bl_present_flag)
    &&& t.dv_el_present == is_raised(s.el_present_flag)
    &&& t.is_anamorphic == value_or(s.is_anamorphic, false)
    &&& t.level == narrow_signed(s.level)
    &&& t.ref_frames == narrow_signed(s.ref_frames)
}

/// A sound track with what the probe says of the stream.
pub open spec fn is_audio_track(t: AudioTrackPayload, s: MediaStream) -> bool {
    &&& t.idx == low_i32(s.index)
    &&& t.codec@ == text_or(s.codec, ""@)
    &&& t.channels == narrow_or_zero(s.channels)
    &&& t.sample_rate == narrow_or_zero(s.sample_rate)
    &&& t.bit_rate == s.bit_rate
    &&& t.bit_depth == narrow_signed(s.bit_depth)
    &&& t.channel_layout == s.channel_layout
    &&& t.profile == s.profile
    &&& t.codec_tag == s.codec_tag
    &&& t.comment == s.comment
    &&& t.title == s.title
    &&& t.language == s.language
    &&& t.is_default == value_or(s.is_default, false)
    &&& t.is_forced == s.is_forced
    &&& t.is_external == s.is_external
    &&& t.is_hearing_impaired == s.is_hearing_impaired
}

/// A subtitle track with what the probe says of the stream.
pub open spec fn is_subtitle_track(t: SubtitleTrackPayload, s: MediaStream) -> bool {
    &&& t.idx == low_i32(s.index)
    &&& t.codec == s.codec
    &&& t.title == s.title
    &&& t.language == s.language
    &&& t.comment == s.comment
    &&& t.is_default == value_or(s.is_default, false)
    &&& t.is_forced == s.is_forced
    &&& t.is_external == s.is_external
    &&& t.is_hearing_impaired == s.is_hearing_impaired
}

/// A track with what the probe says of the stream.
pub open spec fn is_track_of(t: TrackPayload, s: MediaStream) -> bool {
    match t {
        TrackPayload::Video(v) => s.type_ == Some(MediaStreamType::Video) && is_video_track(v, s),
        TrackPayload::Audio(a) => s.type_ == Some(MediaStreamType::Audio) && is_audio_track(a, s),
        TrackPayload::Subtitle(u) => s.type_ == Some(MediaStreamType::Subtitle)
            && is_subtitle_track(u, s),
    }
}

/// A stream of picture, sound or subtitle.
pub open spec fn is_told(s: MediaStream) -> bool {
    match s.type_ {
        Some(MediaStreamType::Video) => true,
        Some(MediaStreamType::Audio) => true,
        Some(MediaStreamType::Subtitle) => true,
        _ => false,
    }
}

/// The streams of picture, sound and subtitle.
pub open spec fn told_streams(streams: Seq<MediaStream>) -> Seq<MediaStream> {
    streams.filter(|s: MediaStream| is_told(s))
}

/// The tracks of these streams, one for each of picture, sound and subtitle.
pub open spec fn are_tracks_of(tracks: Seq<TrackPayload>, streams: Seq<MediaStream>) -> bool {
    let told = told_streams(streams);
    &&& tracks.len() == told.len()
    &&& forall|k: int| 0 <= k < told.len() ==> is_track_of(#[trigger] tracks[k], told[k])
}

fn make_video_track(s: &MediaStream) -> (t: VideoTrackPayload)
    ensures
        is_video_track(t, *s),
{
    VideoTrackPayload {
        idx: narrowed_index(s.index),
        codec: text_or_default(&s.codec, ""),
        width: narrowed_or_zero(s.width),
        height: narrowed_or_zero(s.height),
        fps: s.real_frame_rate,
        avg_fps: s.average_frame_rate,
        bit_rate: s.bit_rate,
        bit_depth: narrowed_signed(s.bit_depth),
        profile: s.profile.clone(),
        codec_tag: s.codec_tag.clone(),
        comment: s.comment.clone(),
        title: s.title.clone(),
        language: s.language.clone(),
        color_primaries: s.color_primaries.clone(),
        color_range: s.color_range.clone(),
        color_space: s.color_space.clone(),
        color_transfer: s.color_transfer.clone(),
        aspect_ratio: s.aspect_ratio.clone(),
        rotation: narrowed_signed(s.rotation),
        is_default: value_or_default(s.is_default, false),
        is_forced: s.is_forced,
        is_external: s.is_external,
        is_hearing_impaired: s.is_hearing_impaired,
        is_interlaced: s.is_interlaced,
        hdr10_plus_present: match s.video_range_type {
            Some(VideoRangeType::Hdr10Plus) => true,
            _ => false,
        },
        dv_profile: narrowed_signed(s.dv_profile),
        dv_level: narrowed_signed(s.dv_level),
        dv_version_major: narrowed_signed(s.dv_version_major),
        dv_version_minor: narrowed_signed(s.dv_version_minor),
        dv_bl_signal_compat_id: narrowed_signed(s.dv_bl_signal_compatibility_id),
        dv_rpu_present: raised(s.rpu_present_flag),
        dv_bl_present: raised(s.bl_present_flag),
        dv_el_present: raised(s.el_present_flag),
        is_anamorphic: value_or_default(s.is_anamorphic, false),
        level: narrowed_signed(s.level),
        ref_frames: narrowed_signed(s.ref_frames),
    }
}

fn make_audio_track(s: &MediaStream) -> (t: AudioTrackPayload)
    ensures
        is_audio_track(t, *s),
{
    AudioTrackPayload {
        idx: narrowed_index(s.index),
        codec: text_or_default(&s.codec, ""),
        channels: narrowed_or_zero(s.channels),
        sample_rate: narrowed_or_zero(s.sample_rate),
        bit_rate: s.bit_rate,
        bit_depth: narrowed_signed(s.bit_depth),
        channel_layout: s.channel_layout.clone(),
        profile: s.profile.clone(),
        codec_tag: s.codec_tag.clone(),
        comment: s.comment.clone(),
        title: s.title.clone(),
        language: s.language.clone(),
        is_default: value_or_default(s.is_default, false),
        is_forced: s.is_forced,
        is_external: s.is_external,
        is_hearing_impaired: s.is_hearing_impaired,
    }
}

fn make_subtitle_track(s: &MediaStream) -> (t: SubtitleTrackPayload)
    ensures
        is_subtitle_track(t, *s),
{
    SubtitleTrackPayload {
        idx: narrowed_index(s.index),
        codec: s.codec.clone(),
        title: s.title.clone(),
        language: s.language.clone(),
        comment: s.comment.clone(),
        is_default: value_or_default(s.is_default, false),
        is_forced: s.is_forced,
        is_external: s.is_external,
        is_hearing_impaired: s.is_hearing_impaired,
    }
}

fn make_track(s: &MediaStream) -> (r: Option<TrackPayload>)
    ensures
        match r {
            Some(t) => is_told(*s) && is_track_of(t, *s),
            None => !is_told(*s),
        },
{
    match s.type_ {
        Some(MediaStreamType::Video) => Some(TrackPayload::Video(make_video_track(s))),
        Some(MediaStreamType::Audio) => Some(TrackPayload::Audio(make_audio_track(s))),
        Some(MediaStreamType::Subtitle) => Some(TrackPayload::Subtitle(make_subtitle_track(s))),
        _ => None,
    }
}

/// The tracks of streams.
pub fn tracks_of(streams: &Vec<MediaStream>) -> (r: Vec<TrackPayload>)
    ensures
        are_tracks_of(r@, streams@),
{
    let mut r: Vec<TrackPayload> = Vec::new();
    let mut k: usize = 0;
    proof {
        reveal(Seq::filter);
        assert(streams@.take(0) =~= Seq::<MediaStream>::empty());
    }
    while k < streams.len()
        invariant
            k <= streams.len(),
            are_tracks_of(r@, streams@.take(k as int)),
        decreases streams.len() - k,
    {
        let ghost before = r@;
        let ghost told = told_streams(streams@.take(k as int));
        match make_track(&streams[k]) {
            Some(t) => {
                r.push(t);
            },
            None => {},
        }
        proof {
            reveal(Seq::filter);
            assert(streams@.take(k + 1).drop_last() =~= streams@.take(k as int));
            assert(streams@.take(k + 1).last() == streams@[k as int]);
            let now = told_streams(streams@.take(k + 1));
            if is_told(streams@[k as int]) {
                assert(now == told.push(streams@[k as int]));
                assert forall|j: int| 0 <= j < now.len() implies is_track_of(
                    #[trigger] r@[j],
                    now[j],
                ) by {
                    if j < told.len() {
                        assert(r@[j] == before[j]);
                    }
                }
            } else {
                assert(now == told);
            }
        }
        k += 1;
    }
    assert(streams@.take(k as int) =~= streams@);
    r
}

// ---------------------------------------------------------------------------
// The whole
// ---------------------------------------------------------------------------

/// The size of a file: that of the probe, else that of the stream, as long as it
/// is above zero.
pub open spec fn known_size(probe: MediaSourceInfo, stream: Media) -> Option<i64> {
    let size = match probe.size {
        Some(s) => Some(s),
        None => match stream.stream_info {
            Some(info) => info.size,
            None => None,
        },
    };
    match size {
        Some(s) => if s > 0 {
            Some(s)
        } else {
            None
        },
        None => None,
    }
}

fn find_size(probe: &MediaSourceInfo, stream: &Media) -> (r: Option<i64>)
    ensures
        r == known_size(*probe, *stream),
{
    let size: Option<i64> = match probe.size {
        Some(s) => Some(s),
        None => match &stream.stream_info {
            Some(info) => info.size,
            None => None,
        },
    };
    match size {
        Some(s) => if s > 0 {
            Some(s)
        } else {
            None
        },
        None => None,
    }
}

/// The name of the file: that of the stream, else its title.
pub open spec fn file_name_of(stream: Media) -> Seq<char> {
    match stream.stream_info {
        Some(info) => text_or(info.filename, stream.title@),
        None => stream.title@,
    }
}

/// The torrent that a stream comes from, and its file in it.
pub open spec fn torrent_of(stream: Media) -> (Option<String>, Option<i32>) {
    match stream.stream_info {
        Some(info) => match info.descriptor {
            StreamDescriptor::Torrent { info_hash, file_idx } => (
                Some(info_hash),
                match file_idx {
                    Some(i) => Some(i as i32),
                    None => None,
                },
            ),
            _ => (None, None),
        },
        None => (None, None),
    }
}

/// An episode.
pub open spec fn is_episode(item: Option<&Media>) -> bool {
    item matches Some(m) && m.kind == MediaKind::Episode
}

/// The identifiers of an item, where it has any. An episode without one of its own
/// in IMDb has that of its series.
pub open spec fn ids_of(item: Option<&Media>) -> Option<SharedIds> {
    match item {
        Some(m) => {
            let ids = m.external_ids;
            let imdb_id = if ids.imdb is Some {
                ids.imdb
            } else {
                ids.series_imdb
            };
            if imdb_id is Some || ids.tmdb is Some || ids.tvdb is Some || ids.kitsu is Some {
                Some(
                    SharedIds { imdb_id, tmdb_id: ids.tmdb, tvdb_id: ids.tvdb, kitsu_id: ids.kitsu },
                )
            } else {
                None
            }
        },
        None => None,
    }
}

fn find_ids(item: Option<&Media>) -> (r: Option<SharedIds>)
    ensures
        r == ids_of(item),
{
    match item {
        Some(m) => {
            let imdb_id: Option<String> = match &m.external_ids.imdb {
                Some(id) => Some(id.clone()),
                None => m.external_ids.series_imdb.clone(),
            };
            let tmdb_id: Option<i64> = m.external_ids.tmdb;
            let tvdb_id: Option<i64> = m.external_ids.tvdb;
            let kitsu_id: Option<i64> = m.external_ids.kitsu;
            if imdb_id.is_some() || tmdb_id.is_some() || tvdb_id.is_some() || kitsu_id.is_some() {
                Some(SharedIds { imdb_id, tmdb_id, tvdb_id, kitsu_id })
            } else {
                None
            }
        },
        None => None,
    }
}

/// What the media database is told of a probed stream of an item.
pub open spec fn is_info_of(
    info: MediaInfo,
    probe: MediaSourceInfo,
    stream: Media,
    item: Option<&Media>,
) -> bool {
    &&& info.kind@ == (if is_episode(item) {
        "episode"@
    } else {
        "movie"@
    })
    &&& info.filename@ == file_name_of(stream)
    &&& info.torrent_info_hash == torrent_of(stream).0
    &&& info.torrent_file_idx == torrent_of(stream).1
    &&& info.container@ == text_or(probe.container, ""@)
    &&& known_size(probe, stream) == Some(info.size)
    &&& info.duration_ticks == value_or(probe.run_time_ticks, 0)
    &&& info.bitrate == probe.bitrate
    &&& info.season == (if is_episode(item) {
        narrow_signed(item->0.parent_idx)
    } else {
        None
    })
    &&& info.episode == (if is_episode(item) {
        narrow_signed(item->0.idx)
    } else {
        None
    })
    &&& info.external_ids == ids_of(item)
    &&& are_tracks_of(info.tracks@, probe.media_streams@)
}

fn find_torrent(stream: &Media) -> (r: (Option<String>, Option<i32>))
    ensures
        r == torrent_of(*stream),
{
    match &stream.stream_info {
        Some(info) => match &info.descriptor {
            StreamDescriptor::Torrent { info_hash, file_idx } => {
                let idx: Option<i32> = match file_idx {
                    Some(i) => Some(#[verifier::truncate] (*i as i32)),
                    None => None,
                };
                (Some(info_hash.clone()), idx)
            },
            _ => (None, None),
        },
        None => (None, None),
    }
}

/// What the media database is told of a probed stream of an item; nothing where
/// its size is not known.
pub fn media_info_from_probe(
    probe: &MediaSourceInfo,
    stream: &Media,
    item: Option<&Media>,
) -> (r: Option<MediaInfo>)
    ensures
        match r {
            Some(info) => is_info_of(info, *probe, *stream, item),
            None => known_size(*probe, *stream) is None,
        },
{
    let size: i64 = match find_size(probe, stream) {
        Some(size) => size,
        None => {
            return None;
        },
    };
    let torrent: (Option<String>, Option<i32>) = find_torrent(stream);
    let filename: String = match &stream.stream_info {
        Some(info) => text_or_default(&info.filename, stream.title.as_str()),
        None => stream.title.clone(),
    };
    let episode: Option<&Media> = match item {
        Some(m) => if m.kind == MediaKind::Episode {
            Some(m)
        } else {
            None
        },
        None => None,
    };
    Some(
        MediaInfo {
            kind: if episode.is_some() {
                "episode"
            } else {
                "movie"
            },
            filename,
            torrent_info_hash: torrent.0,
            torrent_file_idx: torrent.1,
            container: text_or_default(&probe.container, ""),
            size,
            duration_ticks: value_or_default(probe.run_time_ticks, 0),
            bitrate: probe.bitrate,
            season: match episode {
                Some(m) => narrowed_signed(m.parent_idx),
                None => None,
            },
            episode: match episode {
                Some(m) => narrowed_signed(m.idx),
                None => None,
            },
            external_ids: find_ids(item),
            tracks: tracks_of(&probe.media_streams),
        },
    )
}

// ---------------------------------------------------------------------------
// Laws
// ---------------------------------------------------------------------------

/// The media database is never told of a file without a size.
pub proof fn told_files_have_a_size(
    info: MediaInfo,
    probe: MediaSourceInfo,
    stream: Media,
    item: Option<&Media>,
)
    requires
        is_info_of(info, probe, stream, item),
    ensures
        info.size > 0,
{
}

/// Each stream of picture, sound or subtitle is told, and there are no more tracks
/// than streams.
pub proof fn every_stream_is_told(tracks: Seq<TrackPayload>, streams: Seq<MediaStream>, k: int)
    requires
        are_tracks_of(tracks, streams),
        0 <= k < streams.len(),
        is_told(streams[k]),
    ensures
        exists|j: int| 0 <= j < tracks.len() && is_track_of(#[trigger] tracks[j], streams[k]),
        tracks.len() <= streams.len(),
{
    let pred = |s: MediaStream| is_told(s);
    streams.lemma_filter_contains(pred, k);
    streams.lemma_filter_len(pred);
    let told = told_streams(streams);
    assert(told.contains(streams[k]));
    let j = choose|j: int| 0 <= j < told.len() && told[j] == streams[k];
    assert(is_track_of(tracks[j], streams[k]));
}

/// A stream is told exactly if it is picture, sound or subtitle. Each has one track
/// of its kind, in the order of the streams.
pub proof fn tracks_follow_the_streams(streams: &Vec<MediaStream>, r: Vec<TrackPayload>)
    requires
        call_ensures(tracks_of, (streams,), r),
    ensures
        ({
            let told = streams@.filter(
                |s: MediaStream|
                    s.type_ == Some(MediaStreamType::Video) || s.type_ == Some(
                        MediaStreamType::Audio,
                    ) || s.type_ == Some(MediaStreamType::Subtitle),
            );
            &&& r@.len() == told.len()
            &&& forall|k: int|
                0 <= k < told.len() ==> match #[trigger] r@[k] {
                    TrackPayload::Video(t) => told[k].type_ == Some(MediaStreamType::Video)
                        && is_video_track(t, told[k]),
                    TrackPayload::Audio(t) => told[k].type_ == Some(MediaStreamType::Audio)
                        && is_audio_track(t, told[k]),
                    TrackPayload::Subtitle(t) => told[k].type_ == Some(MediaStreamType::Subtitle)
                        && is_subtitle_track(t, told[k]),
                }
        }),
{
    let raw = |s: MediaStream|
        s.type_ == Some(MediaStreamType::Video) || s.type_ == Some(MediaStreamType::Audio)
            || s.type_ == Some(MediaStreamType::Subtitle);
    let pred = |s: MediaStream| is_told(s);
    assert(pred =~= raw);
    let told = streams@.filter(raw);
    assert(told == told_streams(streams@));
    assert forall|k: int| 0 <= k < told.len() implies is_track_of(#[trigger] r@[k], told[k]) by {}
}

/// A picture track says of each thing what the probe says of it.
pub proof fn picture_tracks_say_what_the_probe_says(t: VideoTrackPayload, s: MediaStream)
    requires
        is_video_track(t, s),
    ensures
        (s.index - t.idx) % 0x1_0000_0000 == 0,
        s.codec matches Some(c) ==> t.codec@ == c@,
        s.codec is None ==> t.codec@.len() == 0,
        s.width matches Some(w) ==> (w - t.width) % 0x1_0000_0000 == 0,
        s.width is None ==> t.width == 0,
        s.height matches Some(h) ==> (h - t.height) % 0x1_0000_0000 == 0,
        s.height is None ==> t.height == 0,
        t.fps == s.real_frame_rate,
        t.avg_fps == s.average_frame_rate,
        t.bit_rate == s.bit_rate,
        t.profile == s.profile,
        t.codec_tag == s.codec_tag,
        t.comment == s.comment,
        t.title == s.title,
        t.language == s.language,
        t.color_primaries == s.color_primaries,
        t.color_range == s.color_range,
        t.color_space == s.color_space,
        t.color_transfer == s.color_transfer,
        t.aspect_ratio == s.aspect_ratio,
        t.is_forced == s.is_forced,
        t.is_external == s.is_external,
        t.is_hearing_impaired == s.is_hearing_impaired,
        t.is_interlaced == s.is_interlaced,
        t.bit_depth == narrow_signed(s.bit_depth),
        t.rotation == narrow_signed(s.rotation),
        t.dv_profile == narrow_signed(s.dv_profile),
        t.dv_level == narrow_signed(s.dv_level),
        t.dv_version_major == narrow_signed(s.dv_version_major),
        t.dv_version_minor == narrow_signed(s.dv_version_minor),
        t.dv_bl_signal_compat_id == narrow_signed(s.dv_bl_signal_compatibility_id),
        t.level == narrow_signed(s.level),
        t.ref_frames == narrow_signed(s.ref_frames),
        t.is_default <==> s.is_default == Some(true),
        t.is_anamorphic <==> s.is_anamorphic == Some(true),
        t.hdr10_plus_present <==> s.video_range_type == Some(VideoRangeType::Hdr10Plus),
        t.dv_rpu_present <==> s.rpu_present_flag is Some && s.rpu_present_flag != Some(0i64),
        t.dv_bl_present <==> s.bl_present_flag is Some && s.bl_present_flag != Some(0i64),
        t.dv_el_present <==> s.el_present_flag is Some && s.el_present_flag != Some(0i64),
{
    reveal_strlit("");
    crate::transcode::low_halves_are_congruent(s.index);
    crate::transcode::low_halves_are_congruent(value_or(s.width, 0));
    crate::transcode::low_halves_are_congruent(value_or(s.height, 0));
}

/// A sound track says of each thing what the probe says of it.
pub proof fn sound_tracks_say_what_the_probe_says(t: AudioTrackPayload, s: MediaStream)
    requires
        is_audio_track(t, s),
    ensures
        (s.index - t.idx) % 0x1_0000_0000 == 0,
        s.codec matches Some(c) ==> t.codec@ == c@,
        s.codec is None ==> t.codec@.len() == 0,
        s.channels matches Some(n) ==> (n - t.channels) % 0x1_0000_0000 == 0,
        s.channels is None ==> t.channels == 0,
        s.sample_rate matches Some(n) ==> (n - t.sample_rate) % 0x1_0000_0000 == 0,
        s.sample_rate is None ==> t.sample_rate == 0,
        t.bit_rate == s.bit_rate,
        t.bit_depth == narrow_signed(s.bit_depth),
        t.channel_layout == s.channel_layout,
        t.profile == s.profile,
        t.codec_tag == s.codec_tag,
        t.comment == s.comment,
        t.title == s.title,
        t.language == s.language,
        t.is_forced == s.is_forced,
        t.is_external == s.is_external,
        t.is_hearing_impaired == s.is_hearing_impaired,
        t.is_default <==> s.is_default == Some(true),
{
    reveal_strlit("");
    crate::transcode::low_halves_are_congruent(s.index);
    crate::transcode::low_halves_are_congruent(value_or(s.channels, 0));
    crate::transcode::low_halves_are_congruent(value_or(s.sample_rate, 0));
}

/// A subtitle track says of each thing what the probe says of it.
pub proof fn subtitle_tracks_say_what_the_probe_says(t: SubtitleTrackPayload, s: MediaStream)
    requires
        is_subtitle_track(t, s),
    ensures
        (s.index - t.idx) % 0x1_0000_0000 == 0,
        t.codec == s.codec,
        t.title == s.title,
        t.language == s.language,
        t.comment == s.comment,
        t.is_forced == s.is_forced,
        t.is_external == s.is_external,
        t.is_hearing_impaired == s.is_hearing_impaired,
        t.is_default <==> s.is_default == Some(true),
{
    crate::transcode::low_halves_are_congruent(s.index);
}

/// A file is told exactly if its size is known: what the probe says, else what is
/// known of the stream, as long as that is above zero.
pub proof fn files_of_known_size_are_told(
    probe: &MediaSourceInfo,
    stream: &Media,
    item: Option<&Media>,
    r: Option<MediaInfo>,
)
    requires
        call_ensures(media_info_from_probe, (probe, stream, item), r),
    ensures
        probe.size matches Some(n) ==> if n > 0 {
            r matches Some(info) && info.size == n
        } else {
            r is None
        },
        probe.size is None ==> if stream.stream_info matches Some(info)
            && info.size matches Some(n) && n > 0 {
            r matches Some(told) && Some(told.size) == stream.stream_info->0.size
        } else {
            r is None
        },
{
}

/// What is told of a file: what the probe says of it, the name of the file or else
/// the title of its stream, and the torrent it comes from.
pub proof fn files_are_told_as_they_are(
    probe: &MediaSourceInfo,
    stream: &Media,
    item: Option<&Media>,
    info: MediaInfo,
)
    requires
        call_ensures(media_info_from_probe, (probe, stream, item), Some(info)),
    ensures
        probe.container matches Some(c) ==> info.container@ == c@,
        probe.container is None ==> info.container@.len() == 0,
        probe.run_time_ticks matches Some(n) ==> info.duration_ticks == n,
        probe.run_time_ticks is None ==> info.duration_ticks == 0,
        info.bitrate == probe.bitrate,
        are_tracks_of(info.tracks@, probe.media_streams@),
        stream.stream_info is None ==> info.filename@ == stream.title@
            && info.torrent_info_hash is None && info.torrent_file_idx is None,
        stream.stream_info matches Some(known) ==> {
            &&& known.filename matches Some(name) ==> info.filename@ == name@
            &&& known.filename is None ==> info.filename@ == stream.title@
            &&& known.descriptor matches StreamDescriptor::Torrent { info_hash, file_idx } ==> {
                &&& info.torrent_info_hash == Some(info_hash)
                &&& info.torrent_file_idx is None <==> file_idx is None
                &&& file_idx matches Some(n) ==> (n - info.torrent_file_idx->0) % 0x1_0000_0000
                    == 0
            }
            &&& known.descriptor !is Torrent ==> info.torrent_info_hash is None
                && info.torrent_file_idx is None
        },
{
    reveal_strlit("");
    if let Some(known) = stream.stream_info {
        if let StreamDescriptor::Torrent { info_hash, file_idx } = known.descriptor {
            if let Some(n) = file_idx {
                assert(n == (n as i32) || n == (n as i32) + 0x1_0000_0000) by (bit_vector);
            }
        }
    }
}

/// An episode is told with its season and its number, and everything else as a film
/// without them. The identifiers are those of the item; where it has none in IMDb,
/// that of its series stands in, and where it has none at all there are none.
pub proof fn items_are_told_by_their_ids(
    probe: &MediaSourceInfo,
    stream: &Media,
    item: Option<&Media>,
    info: MediaInfo,
)
    requires
        call_ensures(media_info_from_probe, (probe, stream, item), Some(info)),
    ensures
        item is None ==> info.kind@ == "movie"@ && info.season is None && info.episode is None
            && info.external_ids is None,
        item matches Some(m) ==> {
            &&& m.kind != MediaKind::Episode ==> info.kind@ == "movie"@ && info.season is None
                && info.episode is None
            &&& m.kind == MediaKind::Episode ==> info.kind@ == "episode"@ && info.season
                == narrow_signed(m.parent_idx) && info.episode == narrow_signed(m.idx)
            &&& info.external_ids is None <==> m.external_ids.imdb is None
                && m.external_ids.series_imdb is None && m.external_ids.tmdb is None
                && m.external_ids.tvdb is None && m.external_ids.kitsu is None
            &&& info.external_ids matches Some(ids) ==> {
                &&& m.external_ids.imdb is Some ==> ids.imdb_id == m.external_ids.imdb
                &&& m.external_ids.imdb is None ==> ids.imdb_id == m.external_ids.series_imdb
                &&& ids.tmdb_id == m.external_ids.tmdb
                &&& ids.tvdb_id == m.external_ids.tvdb
                &&& ids.kitsu_id == m.external_ids.kitsu
            }
        },
{
}

} // verus!
