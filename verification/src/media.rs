//! Media items, their streams and what a probe says of them.

use vstd::prelude::*;

use crate::ids::MediaId;

verus! {

/// What a media item is.
#[derive(Clone, Copy, Debug, PartialEq, Eq, Structural)]
pub enum MediaKind {
    Movie,
    Episode,
    Track,
    Stream,
    StreamGroup,
    TvChannel,
    Other,
}

/// The same text, if there is one.
fn copy_text(t: &Option<String>) -> (r: Option<String>)
    ensures
        r == *t,
{
    match t {
        Some(s) => Some(s.clone()),
        None => None,
    }
}

/// Where the bytes of a stream or a subtitle come from.
#[derive(Debug)]
pub enum StreamDescriptor {
    Http { url: String },
    /// A file of this machine, by its path where that is valid Unicode.
    Local(Option<String>),
    Opendal { addon_id: MediaId, path: String },
    Torrent { info_hash: String, file_idx: Option<u32> },
    Other,
}

impl Clone for StreamDescriptor {
    fn clone(&self) -> (r: Self)
        ensures
            r == *self,
    {
        match self {
            StreamDescriptor::Http { url } => StreamDescriptor::Http { url: url.clone() },
            StreamDescriptor::Local(path) => StreamDescriptor::Local(copy_text(path)),
            StreamDescriptor::Opendal { addon_id, path } => StreamDescriptor::Opendal {
                addon_id: *addon_id,
                path: path.clone(),
            },
            StreamDescriptor::Torrent { info_hash, file_idx } => StreamDescriptor::Torrent {
                info_hash: info_hash.clone(),
                file_idx: *file_idx,
            },
            StreamDescriptor::Other => StreamDescriptor::Other,
        }
    }
}

/// What is known of a stream before it is probed.
#[derive(Debug)]
pub struct StreamInfo {
    pub descriptor: StreamDescriptor,
    pub filename: Option<String>,
    pub size: Option<i64>,
    /// The resolution class of the stream, such as `4K`.
    pub resolution_tag: Option<String>,
    pub is_p2p: bool,
    /// The address under which the server itself reads the stream.
    pub server_input: String,
}

impl Clone for StreamInfo {
    fn clone(&self) -> (r: Self)
        ensures
            r == *self,
    {
        StreamInfo {
            descriptor: self.descriptor.clone(),
            filename: copy_text(&self.filename),
            size: self.size,
            resolution_tag: copy_text(&self.resolution_tag),
            is_p2p: self.is_p2p,
            server_input: self.server_input.clone(),
        }
    }
}

/// Identifiers of an item in public databases.
#[derive(Debug)]
pub struct ExternalIds {
    pub imdb: Option<String>,
    pub series_imdb: Option<String>,
    pub tmdb: Option<i64>,
    pub tvdb: Option<i64>,
    pub kitsu: Option<i64>,
}

impl Clone for ExternalIds {
    fn clone(&self) -> (r: Self)
        ensures
            r == *self,
    {
        ExternalIds {
            imdb: copy_text(&self.imdb),
            series_imdb: copy_text(&self.series_imdb),
            tmdb: self.tmdb,
            tvdb: self.tvdb,
            kitsu: self.kitsu,
        }
    }
}

/// What an earlier probe of a stream found.
#[derive(Debug)]
pub struct ProbeData {
    pub media_streams: Vec<MediaStream>,
    /// The picture stream that the probe names, if it names one.
    pub video_stream: Option<MediaStream>,
    /// The sound stream that the probe names, if it names one.
    pub audio_stream: Option<MediaStream>,
    pub run_time_ticks: Option<i64>,
}

impl ProbeData {
    /// The same findings, in a vector of their own.
    pub open spec fn is_copy_of(self, other: ProbeData) -> bool {
        &&& self.media_streams@ == other.media_streams@
        &&& self == (ProbeData { media_streams: self.media_streams, ..other })
    }
}

impl Clone for ProbeData {
    fn clone(&self) -> (r: Self)
        ensures
            r.is_copy_of(*self),
    {
        let streams: Vec<MediaStream> = self.media_streams.clone();
        assert(streams@ =~= self.media_streams@);
        ProbeData {
            media_streams: streams,
            video_stream: self.video_stream.clone(),
            audio_stream: self.audio_stream.clone(),
            run_time_ticks: self.run_time_ticks,
        }
    }
}

/// An item of the library: a film, an episode, a stream of one, a group of streams.
#[derive(Debug)]
pub struct Media {
    pub id: MediaId,
    pub kind: MediaKind,
    pub title: String,
    /// The group that this stream stands for.
    pub group_id: Option<MediaId>,
    pub stream_info: Option<StreamInfo>,
    pub probe_data: Option<ProbeData>,
    /// Running time in seconds.
    pub runtime: Option<i64>,
    pub external_ids: ExternalIds,
    pub parent_idx: Option<i64>,
    pub idx: Option<i64>,
}

impl Media {
    /// The same item, with what a probe found in a vector of its own.
    pub open spec fn is_copy_of(self, other: Media) -> bool {
        &&& match (self.probe_data, other.probe_data) {
            (Some(mine), Some(theirs)) => mine.is_copy_of(theirs),
            (None, None) => true,
            _ => false,
        }
        &&& self == (Media { probe_data: self.probe_data, ..other })
    }
}

impl Clone for Media {
    fn clone(&self) -> (r: Self)
        ensures
            r.is_copy_of(*self),
    {
        Media {
            id: self.id,
            kind: self.kind,
            title: self.title.clone(),
            group_id: self.group_id,
            stream_info: match &self.stream_info {
                Some(info) => Some(info.clone()),
                None => None,
            },
            probe_data: match &self.probe_data {
                Some(probe) => Some(probe.clone()),
                None => None,
            },
            runtime: self.runtime,
            external_ids: self.external_ids.clone(),
            parent_idx: self.parent_idx,
            idx: self.idx,
        }
    }
}

/// What a stream inside a file carries.
#[derive(Clone, Copy, Debug, PartialEq, Eq, Structural)]
pub enum MediaStreamType {
    Video,
    Audio,
    Subtitle,
    Other,
}

/// The dynamic range of a picture.
#[derive(Clone, Copy, Debug, PartialEq, Eq, Structural)]
pub enum VideoRangeType {
    Sdr,
    Hdr10,
    Hdr10Plus,
    Hlg,
    DolbyVision,
    Other,
}

/// A frame rate, by the bits of its single-precision number.
#[derive(Clone, Copy, Debug, PartialEq, Eq, Structural)]
pub struct FrameRate {
    pub bits: u32,
}

/// A stream inside a file.
#[derive(Debug)]
pub struct MediaStream {
    pub index: i64,
    pub type_: Option<MediaStreamType>,
    pub codec: Option<String>,
    pub profile: Option<String>,
    pub codec_tag: Option<String>,
    pub comment: Option<String>,
    pub title: Option<String>,
    pub language: Option<String>,
    pub display_title: Option<String>,
    pub delivery_url: Option<String>,
    pub color_primaries: Option<String>,
    pub color_range: Option<String>,
    pub color_space: Option<String>,
    pub color_transfer: Option<String>,
    pub aspect_ratio: Option<String>,
    pub channel_layout: Option<String>,
    pub width: Option<i64>,
    pub height: Option<i64>,
    pub channels: Option<i64>,
    pub sample_rate: Option<i64>,
    pub bit_rate: Option<i64>,
    pub bit_depth: Option<i64>,
    pub rotation: Option<i64>,
    pub level: Option<i64>,
    pub ref_frames: Option<i64>,
    pub dv_profile: Option<i64>,
    pub dv_level: Option<i64>,
    pub dv_version_major: Option<i64>,
    pub dv_version_minor: Option<i64>,
    pub dv_bl_signal_compatibility_id: Option<i64>,
    pub rpu_present_flag: Option<i64>,
    pub bl_present_flag: Option<i64>,
    pub el_present_flag: Option<i64>,
    pub real_frame_rate: Option<FrameRate>,
    pub average_frame_rate: Option<FrameRate>,
    pub video_range_type: Option<VideoRangeType>,
    pub is_default: Option<bool>,
    pub is_anamorphic: Option<bool>,
    pub is_forced: bool,
    pub is_external: bool,
    pub is_hearing_impaired: bool,
    pub is_interlaced: bool,
}

impl Clone for MediaStream {
    fn clone(&self) -> (r: Self)
        ensures
            r == *self,
    {
        MediaStream {
            index: self.index,
            type_: self.type_,
            codec: copy_text(&self.codec),
            profile: copy_text(&self.profile),
            codec_tag: copy_text(&self.codec_tag),
            comment: copy_text(&self.comment),
            title: copy_text(&self.title),
            language: copy_text(&self.language),
            display_title: copy_text(&self.display_title),
            delivery_url: copy_text(&self.delivery_url),
            color_primaries: copy_text(&self.color_primaries),
            color_range: copy_text(&self.color_range),
            color_space: copy_text(&self.color_space),
            color_transfer: copy_text(&self.color_transfer),
            aspect_ratio: copy_text(&self.aspect_ratio),
            channel_layout: copy_text(&self.channel_layout),
            width: self.width,
            height: self.height,
            channels: self.channels,
            sample_rate: self.sample_rate,
            bit_rate: self.bit_rate,
            bit_depth: self.bit_depth,
            rotation: self.rotation,
            level: self.level,
            ref_frames: self.ref_frames,
            dv_profile: self.dv_profile,
            dv_level: self.dv_level,
            dv_version_major: self.dv_version_major,
            dv_version_minor: self.dv_version_minor,
            dv_bl_signal_compatibility_id: self.dv_bl_signal_compatibility_id,
            rpu_present_flag: self.rpu_present_flag,
            bl_present_flag: self.bl_present_flag,
            el_present_flag: self.el_present_flag,
            real_frame_rate: self.real_frame_rate,
            average_frame_rate: self.average_frame_rate,
            video_range_type: self.video_range_type,
            is_default: self.is_default,
            is_anamorphic: self.is_anamorphic,
            is_forced: self.is_forced,
            is_external: self.is_external,
            is_hearing_impaired: self.is_hearing_impaired,
            is_interlaced: self.is_interlaced,
        }
    }
}

/// What the provider of a stream said of it, kept for the client.
#[derive(Debug)]
pub struct MediaSourceRemuxInfo {
    /// A JSON text.
    pub provider_info: Option<String>,
}

/// A source that a client can play.
#[derive(Debug)]
pub struct MediaSourceInfo {
    pub id: MediaId,
    pub e_tag: MediaId,
    pub name: Option<String>,
    pub path: Option<String>,
    pub container: Option<String>,
    pub size: Option<i64>,
    pub run_time_ticks: Option<i64>,
    pub bitrate: Option<i64>,
    pub has_segments: bool,
    pub is_remote: bool,
    pub default_subtitle_stream_index: Option<i64>,
    pub media_streams: Vec<MediaStream>,
    pub remux: Option<MediaSourceRemuxInfo>,
}

/// A subtitle that an addon offers beside the file.
#[derive(Debug)]
pub struct SubtitleInfo {
    pub lang: Option<String>,
    pub url: Option<StreamDescriptor>,
}

impl Clone for SubtitleInfo {
    fn clone(&self) -> (r: Self)
        ensures
            r == *self,
    {
        SubtitleInfo {
            lang: copy_text(&self.lang),
            url: match &self.url {
                Some(url) => Some(url.clone()),
                None => None,
            },
        }
    }
}

// ---------------------------------------------------------------------------
// Laws
// ---------------------------------------------------------------------------

/// A copy of what a probe found tells the same streams and times.
pub proof fn copied_findings_are_the_same(probe: &ProbeData, r: ProbeData)
    requires
        call_ensures(ProbeData::clone, (probe,), r),
    ensures
        r.media_streams@ == probe.media_streams@,
        r.video_stream == probe.video_stream,
        r.audio_stream == probe.audio_stream,
        r.run_time_ticks == probe.run_time_ticks,
{
}

/// A copy of an item is the item in all that is known of it.
pub proof fn copied_items_are_the_same(media: Media, r: Media)
    requires
        r.is_copy_of(media),
    ensures
        r.id == media.id,
        r.kind == media.kind,
        r.title == media.title,
        r.group_id == media.group_id,
        r.stream_info == media.stream_info,
        r.runtime == media.runtime,
        r.external_ids == media.external_ids,
        r.parent_idx == media.parent_idx,
        r.idx == media.idx,
        r.probe_data is Some <==> media.probe_data is Some,
        r.probe_data matches Some(probe) ==> {
            &&& probe.media_streams@ == media.probe_data->0.media_streams@
            &&& probe.video_stream == media.probe_data->0.video_stream
            &&& probe.audio_stream == media.probe_data->0.audio_stream
            &&& probe.run_time_ticks == media.probe_data->0.run_time_ticks
        },
{
}

/// Copying an item gives such a copy.
pub proof fn items_are_copied_whole(media: &Media, r: Media)
    requires
        call_ensures(Media::clone, (media,), r),
    ensures
        r.is_copy_of(*media),
{
}

/// Copies of streams, of what is known of them, of their addresses, their
/// identifiers and of subtitles are equal to what they were made of.
pub proof fn copies_are_equal(
    stream: &MediaStream,
    stream_copy: MediaStream,
    info: &StreamInfo,
    info_copy: StreamInfo,
    descriptor: &StreamDescriptor,
    descriptor_copy: StreamDescriptor,
    ids: &ExternalIds,
    ids_copy: ExternalIds,
    sub: &SubtitleInfo,
    sub_copy: SubtitleInfo,
)
    requires
        call_ensures(MediaStream::clone, (stream,), stream_copy),
        call_ensures(StreamInfo::clone, (info,), info_copy),
        call_ensures(StreamDescriptor::clone, (descriptor,), descriptor_copy),
        call_ensures(ExternalIds::clone, (ids,), ids_copy),
        call_ensures(SubtitleInfo::clone, (sub,), sub_copy),
    ensures
        stream_copy == *stream,
        info_copy == *info,
        descriptor_copy == *descriptor,
        ids_copy == *ids,
        sub_copy == *sub,
{
}

} // verus!
