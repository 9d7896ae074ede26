//! Making the transcode of an HLS play session.

use vstd::prelude::*;

use crate::hls::resolve_live_audio_codec;
use crate::ids::MediaId;
use crate::media::Media;
use crate::media::MediaKind;
use crate::media::MediaStream;
use crate::stream_service::choose_source;
use crate::stream_service::source_choice;
use crate::text::ascii_lowered;
use crate::text::begins_with;
use crate::text::same_ignoring_ascii_case;
use crate::text::same_text;
use crate::text::starts_with;
use crate::transcode::audio_channels;
use crate::transcode::channels_for;
use crate::transcode::chosen_stream;
use crate::transcode::low_u32;
use crate::transcode::narrow;
use crate::transcode::narrow_signed;
use crate::transcode::narrowed;
use crate::transcode::narrowed_signed;
use crate::transcode::seconds_to_ticks;
use crate::transcode::stream_choice;
use crate::transcode::text_or;
use crate::transcode::text_or_default;
use crate::transcode::ticks_of_seconds;
use crate::transcode::value_or;
use crate::transcode::value_or_default;
use crate::transcode::EncoderSettings;
use crate::transcode::EncodingOptions;
use crate::transcode::HlsVideoQuery;
use crate::transcode::SubtitleDeliveryMethod;
use crate::transcode::TranscodeParams;
use crate::transcode::TranscodeSession;

verus! {

/// The directory of all transcodes. Each play session has one below it, by its id.
pub const SESSIONS_DIR: &'static str = "transcode_sessions";

/// A request for the transcode of an item.
#[derive(Debug)]
pub struct SessionRequest {
    pub item_id: MediaId,
    pub play_session_id: String,
    pub query: HlsVideoQuery,
    pub options: EncodingOptions,
}

/// The play session that a query names, or a new one.
pub fn play_session_of(query: &HlsVideoQuery, fresh: MediaId) -> (r: String)
    ensures
        r@ == text_or(query.play_session_id, fresh.simple()),
{
    match &query.play_session_id {
        Some(id) => id.clone(),
        None => fresh.to_simple_text(),
    }
}

// ---------------------------------------------------------------------------
// What is played
// ---------------------------------------------------------------------------

/// What a session needs of the stream it plays.
#[derive(Debug)]
pub struct PlaySource {
    pub input_url: String,
    pub is_channel: bool,
    /// In seconds.
    pub runtime: Option<i64>,
    pub probed_ticks: Option<i64>,
    pub video: Option<MediaStream>,
    pub audio: Option<MediaStream>,
}

/// A stream as the source of a session, if it has an address. Its running time
/// falls back to that of the item it belongs to.
pub open spec fn source_of(media: Media, item_runtime: Option<i64>) -> Option<PlaySource> {
    match media.stream_info {
        Some(info) => Some(
            PlaySource {
                input_url: info.server_input,
                is_channel: media.kind == MediaKind::TvChannel,
                runtime: if media.runtime is Some {
                    media.runtime
                } else {
                    item_runtime
                },
                probed_ticks: match media.probe_data {
                    Some(probe) => probe.run_time_ticks,
                    None => None,
                },
                video: match media.probe_data {
                    Some(probe) => probe.video_stream,
                    None => None,
                },
                audio: match media.probe_data {
                    Some(probe) => probe.audio_stream,
                    None => None,
                },
            },
        ),
        None => None,
    }
}

fn make_source(media: Media, item_runtime: Option<i64>) -> (r: Option<PlaySource>)
    ensures
        r == source_of(media, item_runtime),
{
    let is_channel: bool = media.kind == MediaKind::TvChannel;
    let runtime: Option<i64> = match media.runtime {
        Some(seconds) => Some(seconds),
        None => item_runtime,
    };
    match media.stream_info {
        Some(info) => match media.probe_data {
            Some(probe) => Some(
                PlaySource {
                    input_url: info.server_input,
                    is_channel,
                    runtime,
                    probed_ticks: probe.run_time_ticks,
                    video: probe.video_stream,
                    audio: probe.audio_stream,
                },
            ),
            None => Some(
                PlaySource {
                    input_url: info.server_input,
                    is_channel,
                    runtime,
                    probed_ticks: None,
                    video: None,
                    audio: None,
                },
            ),
        },
        None => None,
    }
}

// ---------------------------------------------------------------------------
// Codecs, running time, bit rate
// ---------------------------------------------------------------------------

/// The picture is copied unless the client asks for another codec and the server
/// transcodes.
pub open spec fn video_codec_for(query: HlsVideoQuery, options: EncodingOptions) -> Seq<char> {
    if text_or(query.video_codec, "copy"@) == "copy"@ || !value_or(
        options.enable_video_transcoding,
        true,
    ) {
        "copy"@
    } else {
        "h264"@
    }
}

/// The codec of the picture.
pub fn choose_video_codec(query: &HlsVideoQuery, options: &EncodingOptions) -> (r: String)
    ensures
        r@ == video_codec_for(*query, *options),
{
    let requested: String = text_or_default(&query.video_codec, "copy");
    if same_text(requested.as_str(), "copy") || !value_or_default(
        options.enable_video_transcoding,
        true,
    ) {
        "copy".to_owned()
    } else {
        "h264".to_owned()
    }
}

/// Sound in AAC Main profile, which browsers do not play. Where the probe gives
/// no profile, a title that starts with `Main` stands for it.
pub open spec fn is_main_aac(audio: Option<MediaStream>) -> bool {
    audio matches Some(s) && s.codec matches Some(codec) && ascii_lowered(codec@) == ascii_lowered(
        "aac"@,
    ) && match s.profile {
        Some(profile) => ascii_lowered(profile@) == ascii_lowered("main"@),
        None => s.display_title matches Some(title) && begins_with(title@, "Main"@),
    }
}

fn main_aac(audio: &Option<MediaStream>) -> (r: bool)
    ensures
        r == is_main_aac(*audio),
{
    match audio {
        Some(s) => {
            let aac: bool = match &s.codec {
                Some(codec) => same_ignoring_ascii_case(codec.as_str(), "aac"),
                None => false,
            };
            let main: bool = match &s.profile {
                Some(profile) => same_ignoring_ascii_case(profile.as_str(), "main"),
                None => match &s.display_title {
                    Some(title) => starts_with(title.as_str(), "Main"),
                    None => false,
                },
            };
            aac && main
        },
        None => false,
    }
}

/// The codec of the sound. A copy is replaced by AAC for a live source, and for a
/// source in AAC Main profile.
pub open spec fn audio_codec_for(
    query: HlsVideoQuery,
    audio: Option<MediaStream>,
    is_live: bool,
) -> Seq<char> {
    let requested = text_or(query.audio_codec, "aac"@);
    if requested == "copy"@ && (is_live || is_main_aac(audio)) {
        "aac"@
    } else {
        requested
    }
}

/// The codec of the sound.
pub fn choose_audio_codec(
    query: &HlsVideoQuery,
    audio: &Option<MediaStream>,
    is_live: bool,
) -> (r: String)
    ensures
        r@ == audio_codec_for(*query, *audio, is_live),
{
    let requested: String = text_or_default(&query.audio_codec, "aac");
    let live: String = resolve_live_audio_codec(is_live, requested.as_str());
    proof {
        reveal_strlit("aac");
        reveal_strlit("copy");
    }
    if same_text(live.as_str(), "copy") && main_aac(audio) {
        "aac".to_owned()
    } else {
        live
    }
}

/// A number above zero.
pub open spec fn positive(v: Option<i64>) -> Option<i64> {
    match v {
        Some(n) => if n > 0 {
            Some(n)
        } else {
            None
        },
        None => None,
    }
}

/// A running time in seconds, in ticks.
pub open spec fn ticks_of(runtime: Option<i64>) -> Option<i64> {
    match positive(runtime) {
        Some(seconds) => ticks_of_seconds(seconds as int),
        None => None,
    }
}

fn count_ticks(runtime: Option<i64>) -> (r: Option<i64>)
    ensures
        r == ticks_of(runtime),
{
    match runtime {
        Some(seconds) => if seconds > 0 {
            seconds_to_ticks(seconds)
        } else {
            None
        },
        None => None,
    }
}

/// The running time that a source itself tells: the longer of the stored one and
/// the probed one, so that neither cuts a longer file short.
pub open spec fn source_ticks(source: PlaySource) -> Option<i64> {
    match (ticks_of(source.runtime), positive(source.probed_ticks)) {
        (Some(a), Some(b)) => Some(
            if a >= b {
                a
            } else {
                b
            },
        ),
        (Some(a), None) => Some(a),
        (None, b) => b,
    }
}

/// The running time that a source itself tells.
pub fn count_source_ticks(source: &PlaySource) -> (r: Option<i64>)
    ensures
        r == source_ticks(*source),
{
    let stored: Option<i64> = count_ticks(source.runtime);
    let probed: Option<i64> = match source.probed_ticks {
        Some(t) => if t > 0 {
            Some(t)
        } else {
            None
        },
        None => None,
    };
    match (stored, probed) {
        (Some(a), Some(b)) => if a >= b {
            Some(a)
        } else {
            Some(b)
        },
        (Some(a), None) => Some(a),
        (None, b) => b,
    }
}

/// The smaller of a number and one that may be missing.
pub open spec fn capped(n: u32, cap: Option<u32>) -> u32 {
    match cap {
        Some(c) => if c < n {
            c
        } else {
            n
        },
        None => n,
    }
}

fn cap(n: u32, limit: Option<u32>) -> (r: u32)
    ensures
        r == capped(n, limit),
{
    match limit {
        Some(c) => if c < n {
            c
        } else {
            n
        },
        None => n,
    }
}

/// The bit rate of the picture: that of the source, no more than the client asks
/// for and takes. Unknown where that of the source is.
pub open spec fn video_bitrate_for(query: HlsVideoQuery, video: Option<MediaStream>) -> Option<
    u32,
> {
    match video {
        Some(s) => match s.bit_rate {
            Some(b) => Some(
                capped(
                    capped(low_u32(b), narrow(query.video_bit_rate)),
                    narrow(query.max_streaming_bitrate),
                ),
            ),
            None => None,
        },
        None => None,
    }
}

/// The bit rate of the picture.
pub fn choose_video_bitrate(query: &HlsVideoQuery, video: &Option<MediaStream>) -> (r: Option<u32>)
    ensures
        r == video_bitrate_for(*query, *video),
{
    let own: Option<u32> = match video {
        Some(s) => narrowed(s.bit_rate),
        None => None,
    };
    match own {
        Some(b) => Some(
            cap(cap(b, narrowed(query.video_bit_rate)), narrowed(query.max_streaming_bitrate)),
        ),
        None => None,
    }
}

/// The source that a client names, else the item itself.
pub open spec fn wanted_source(request: SessionRequest) -> MediaId {
    value_or(request.query.media_source_id, request.item_id)
}

/// The length of a segment in seconds.
pub open spec fn segment_length_for(query: HlsVideoQuery) -> u32 {
    low_u32(value_or(query.segment_length, 6i64))
}

// ---------------------------------------------------------------------------
// The session
// ---------------------------------------------------------------------------

/// The client seeks: it asks to start behind the beginning.
pub open spec fn is_seeking(query: HlsVideoQuery) -> bool {
    query.start_time_ticks matches Some(t) && t > 0
}

/// The subtitle becomes part of the picture.
pub open spec fn burns_subtitle(query: HlsVideoQuery) -> bool {
    query.subtitle_method == Some(SubtitleDeliveryMethod::Encode)
}

/// The codec that a probe gives of a stream.
pub open spec fn codec_of(stream: Option<MediaStream>) -> Option<String> {
    match stream {
        Some(s) => s.codec,
        None => None,
    }
}

/// The session that a request makes of a source.
pub open spec fn is_session_of(
    session: TranscodeSession,
    request: SessionRequest,
    source: PlaySource,
    is_live: bool,
    runtime_ticks: i64,
) -> bool {
    let query = request.query;
    &&& session.id@ == request.play_session_id@
    &&& session.item_id == request.item_id
    &&& session.media_source_id == wanted_source(request)
    &&& session.input_url@ == source.input_url@
    &&& session.video_codec@ == video_codec_for(query, request.options)
    &&& session.audio_codec@ == audio_codec_for(query, source.audio, is_live)
    &&& session.audio_stream_index == stream_choice(query.audio_stream_index)
    &&& session.subtitle_stream_index == narrow_signed(query.subtitle_stream_index)
    &&& session.burn_subtitle == burns_subtitle(query)
    &&& session.segment_length == segment_length_for(query)
    &&& session.transcode_reasons == query.transcode_reasons
    &&& session.runtime_ticks == runtime_ticks
    &&& session.is_live == is_live
    &&& session.source_video_codec == codec_of(source.video)
    &&& session.source_audio_codec == codec_of(source.audio)
    &&& match source.video {
        Some(video) => {
            &&& session.source_video_profile == video.profile
            &&& session.source_video_level == video.level
            &&& session.source_video_range_type == video.video_range_type
            &&& session.source_video_width == video.width
            &&& session.source_video_height == video.height
            &&& session.source_frame_rate == video.real_frame_rate
        },
        None => {
            &&& session.source_video_profile is None
            &&& session.source_video_level is None
            &&& session.source_video_range_type is None
            &&& session.source_video_width is None
            &&& session.source_video_height is None
            &&& session.source_frame_rate is None
        },
    }
}

/// What the encoder is told for the session that a request makes of a source.
pub open spec fn are_params_of(
    params: TranscodeParams,
    request: SessionRequest,
    source: PlaySource,
    is_live: bool,
) -> bool {
    let query = request.query;
    let audio_codec = audio_codec_for(query, source.audio, is_live);
    &&& params.input_url@ == source.input_url@
    &&& params.video_codec@ == video_codec_for(query, request.options)
    &&& params.audio_codec@ == audio_codec
    &&& params.segment_length == segment_length_for(query)
    &&& params.start_time_ticks == query.start_time_ticks
    &&& params.max_width == narrow(query.max_width)
    &&& params.max_height == narrow(query.max_height)
    &&& params.video_bitrate == video_bitrate_for(query, source.video)
    &&& params.audio_bitrate == narrow(query.audio_bit_rate)
    &&& params.audio_channels == channels_for(audio_codec)
    &&& params.audio_stream_index == stream_choice(query.audio_stream_index)
    &&& params.subtitle_stream_index == narrow_signed(query.subtitle_stream_index)
    &&& params.burn_subtitle == burns_subtitle(query)
    &&& params.source_video_codec == codec_of(source.video)
    &&& params.source_audio_codec == codec_of(source.audio)
    &&& params.source_video_range_type == (match source.video {
        Some(video) => video.video_range_type,
        None => None,
    })
    &&& params.is_live == is_live
    &&& params.settings.are_of(request.options)
}

fn burnt_in(query: &HlsVideoQuery) -> (r: bool)
    ensures
        r == burns_subtitle(*query),
{
    match query.subtitle_method {
        Some(SubtitleDeliveryMethod::Encode) => true,
        _ => false,
    }
}

fn segment_seconds(query: &HlsVideoQuery) -> (r: u32)
    ensures
        r == segment_length_for(*query),
{
    let length: i64 = value_or_default(query.segment_length, 6);
    #[verifier::truncate]
    (length as u32)
}

fn find_codec(stream: &Option<MediaStream>) -> (r: Option<String>)
    ensures
        r == codec_of(*stream),
{
    match stream {
        Some(s) => s.codec.clone(),
        None => None,
    }
}

fn make_session(
    request: &SessionRequest,
    source: &PlaySource,
    is_live: bool,
    runtime_ticks: i64,
) -> (r: TranscodeSession)
    ensures
        is_session_of(r, *request, *source, is_live, runtime_ticks),
{
    let query: &HlsVideoQuery = &request.query;
    let video: &Option<MediaStream> = &source.video;
    TranscodeSession {
        id: request.play_session_id.clone(),
        item_id: request.item_id,
        media_source_id: value_or_default(query.media_source_id, request.item_id),
        input_url: source.input_url.clone(),
        video_codec: choose_video_codec(query, &request.options),
        audio_codec: choose_audio_codec(query, &source.audio, is_live),
        audio_stream_index: chosen_stream(query.audio_stream_index),
        subtitle_stream_index: narrowed_signed(query.subtitle_stream_index),
        burn_subtitle: burnt_in(query),
        segment_length: segment_seconds(query),
        transcode_reasons: query.transcode_reasons.clone(),
        runtime_ticks,
        is_live,
        source_video_codec: find_codec(video),
        source_audio_codec: find_codec(&source.audio),
        source_video_profile: match video {
            Some(s) => s.profile.clone(),
            None => None,
        },
        source_video_level: match video {
            Some(s) => s.level,
            None => None,
        },
        source_video_range_type: match video {
            Some(s) => s.video_range_type,
            None => None,
        },
        source_video_width: match video {
            Some(s) => s.width,
            None => None,
        },
        source_video_height: match video {
            Some(s) => s.height,
            None => None,
        },
        source_frame_rate: match video {
            Some(s) => s.real_frame_rate,
            None => None,
        },
    }
}

fn make_params(request: &SessionRequest, source: &PlaySource, is_live: bool) -> (r: TranscodeParams)
    ensures
        are_params_of(r, *request, *source, is_live),
{
    let query: &HlsVideoQuery = &request.query;
    let audio_codec: String = choose_audio_codec(query, &source.audio, is_live);
    let channels: Option<u32> = audio_channels(audio_codec.as_str());
    TranscodeParams {
        input_url: source.input_url.clone(),
        video_codec: choose_video_codec(query, &request.options),
        audio_codec,
        segment_length: segment_seconds(query),
        start_time_ticks: query.start_time_ticks,
        max_width: narrowed(query.max_width),
        max_height: narrowed(query.max_height),
        video_bitrate: choose_video_bitrate(query, &source.video),
        audio_bitrate: narrowed(query.audio_bit_rate),
        audio_channels: channels,
        audio_stream_index: chosen_stream(query.audio_stream_index),
        subtitle_stream_index: narrowed_signed(query.subtitle_stream_index),
        burn_subtitle: burnt_in(query),
        source_video_codec: find_codec(&source.video),
        source_audio_codec: find_codec(&source.audio),
        source_video_range_type: match &source.video {
            Some(s) => s.video_range_type,
            None => None,
        },
        is_live,
        settings: EncoderSettings::new(&request.options),
    }
}

/// What the making of a session waits for.
#[derive(Debug)]
pub enum SessionStage {
    /// Whether the play session has a transcode.
    Start,
    /// The same, after a transcode was stopped.
    Stopped,
    Media,
    /// The streams of a group, whose own running time is kept.
    Group { runtime: Option<i64> },
    /// The streams of an item, whose own running time is kept.
    Streams { runtime: Option<i64>, of_track: bool },
    /// What the item of the request is.
    Parent { source: PlaySource },
    /// The running time of the item of the request.
    ItemRuntime { source: PlaySource },
    Finished,
}

/// What happened while a session is made.
#[derive(Debug)]
pub enum SessionEvent {
    Running(bool),
    Media(Option<Media>),
    Streams(Vec<Media>),
    /// The kind of the item, `None` where it cannot be had.
    Parent(Option<MediaKind>),
    /// The running time of the item in seconds, `None` where it cannot be had.
    ItemRuntime(Option<i64>),
}

/// What the making of a session asks for next.
#[derive(Debug)]
pub enum SessionAction {
    /// Stop the transcode of the play session, and look for it again.
    StopTranscode,
    /// The transcode of the play session goes on.
    Reuse,
    FindMedia { id: MediaId },
    /// Look for the streams of a group, for the item of the request.
    FindGroupStreams { group: MediaId },
    FindStreams { of: MediaId },
    /// Look what the item of the request is.
    FindParent,
    /// Look for the running time of the item of the request.
    FindItemRuntime,
    /// Empty the directory of the play session, attach the session and start the
    /// encoder.
    StartTranscode { session: TranscodeSession, params: TranscodeParams },
    NotFound(&'static str),
    /// The event is not the one that was waited for: nothing is to be done.
    Ignore,
}

/// The session moves on to this stage with this action.
pub open spec fn moves_to(
    next: (SessionStage, SessionAction),
    stage: SessionStage,
    action: SessionAction,
) -> bool {
    next.0 == stage && next.1 == action
}

/// A refusal with this text.
pub open spec fn refuses(next: (SessionStage, SessionAction), text: Seq<char>) -> bool {
    next.0 is Finished && (next.1 matches SessionAction::NotFound(t) && t@ == text)
}

/// A start of the encoder on a source.
pub open spec fn starts(
    request: SessionRequest,
    source: PlaySource,
    is_live: bool,
    runtime_ticks: i64,
    next: (SessionStage, SessionAction),
) -> bool {
    &&& next.0 is Finished
    &&& next.1 matches SessionAction::StartTranscode { session, params } && is_session_of(
        session,
        request,
        source,
        is_live,
        runtime_ticks,
    ) && are_params_of(params, request, source, is_live)
}

/// How a session goes on once it is known whether its source is live. A live
/// source has no running time; another has its own, else that of the item.
pub open spec fn timed_step(
    request: SessionRequest,
    source: PlaySource,
    is_live: bool,
    next: (SessionStage, SessionAction),
) -> bool {
    if is_live {
        starts(request, source, true, 0, next)
    } else {
        match source_ticks(source) {
            Some(ticks) => starts(request, source, false, ticks, next),
            None => moves_to(
                next,
                SessionStage::ItemRuntime { source },
                SessionAction::FindItemRuntime,
            ),
        }
    }
}

/// How a session goes on once its stream is found. A request that names a source
/// apart from its item is live if the item is a channel.
pub open spec fn stream_step(
    request: SessionRequest,
    stream: Media,
    runtime: Option<i64>,
    next: (SessionStage, SessionAction),
) -> bool {
    match source_of(stream, runtime) {
        None => refuses(next, "media source has no URL"@),
        Some(source) => if request.item_id != wanted_source(request) {
            moves_to(next, SessionStage::Parent { source }, SessionAction::FindParent)
        } else {
            timed_step(request, source, source.is_channel, next)
        },
    }
}

/// How a session goes on with an item that is no group: a film, an episode and a
/// track are played through their streams, anything else is played itself.
pub open spec fn item_step(
    request: SessionRequest,
    media: Media,
    runtime: Option<i64>,
    next: (SessionStage, SessionAction),
) -> bool {
    match media.kind {
        MediaKind::Movie | MediaKind::Episode => moves_to(
            next,
            SessionStage::Streams { runtime, of_track: false },
            SessionAction::FindStreams { of: media.id },
        ),
        MediaKind::Track => moves_to(
            next,
            SessionStage::Streams { runtime, of_track: true },
            SessionAction::FindStreams { of: media.id },
        ),
        _ => stream_step(request, media, runtime, next),
    }
}

/// How the making of a session goes on after what it waited for has happened.
pub open spec fn session_step(
    request: SessionRequest,
    stage: SessionStage,
    event: SessionEvent,
    next: (SessionStage, SessionAction),
) -> bool {
    match (stage, event) {
        (SessionStage::Start, SessionEvent::Running(running)) => if running && is_seeking(
            request.query,
        ) {
            moves_to(next, SessionStage::Stopped, SessionAction::StopTranscode)
        } else {
            reuse_step(request, running, next)
        },
        (SessionStage::Stopped, SessionEvent::Running(running)) => reuse_step(
            request,
            running,
            next,
        ),
        (SessionStage::Media, SessionEvent::Media(found)) => match found {
            None => refuses(next, "media not found"@),
            Some(media) => if media.kind == MediaKind::StreamGroup {
                moves_to(
                    next,
                    SessionStage::Group { runtime: media.runtime },
                    SessionAction::FindGroupStreams { group: media.id },
                )
            } else {
                item_step(request, media, media.runtime, next)
            },
        },
        (SessionStage::Group { runtime }, SessionEvent::Streams(streams)) => if streams@.len()
            == 0 {
            refuses(next, "no streams available for this group"@)
        } else {
            item_step(request, streams@[0], runtime, next)
        },
        (
            SessionStage::Streams { runtime, of_track },
            SessionEvent::Streams(streams),
        ) => if of_track {
            if streams@.len() == 0 {
                refuses(next, "no stream found for track"@)
            } else {
                stream_step(request, streams@[0], runtime, next)
            }
        } else {
            match source_choice(streams@, request.query.media_source_id) {
                None => refuses(next, "no playable source found"@),
                Some(k) => stream_step(request, streams@[k], runtime, next),
            }
        },
        (SessionStage::Parent { source }, SessionEvent::Parent(kind)) => timed_step(
            request,
            source,
            source.is_channel || kind == Some(MediaKind::TvChannel),
            next,
        ),
        (SessionStage::ItemRuntime { source }, SessionEvent::ItemRuntime(runtime)) => starts(
            request,
            source,
            false,
            value_or(ticks_of(runtime), 0),
            next,
        ),
        _ => moves_to(next, stage, SessionAction::Ignore),
    }
}

/// A running transcode goes on; without one the media is looked for.
pub open spec fn reuse_step(
    request: SessionRequest,
    running: bool,
    next: (SessionStage, SessionAction),
) -> bool {
    if running {
        moves_to(next, SessionStage::Finished, SessionAction::Reuse)
    } else {
        moves_to(
            next,
            SessionStage::Media,
            SessionAction::FindMedia { id: wanted_source(request) },
        )
    }
}

fn refuse(text: &'static str) -> (next: (SessionStage, SessionAction))
    ensures
        refuses(next, text@),
{
    (SessionStage::Finished, SessionAction::NotFound(text))
}

fn reuse_or_find(request: &SessionRequest, running: bool) -> (next: (SessionStage, SessionAction))
    ensures
        reuse_step(*request, running, next),
{
    if running {
        (SessionStage::Finished, SessionAction::Reuse)
    } else {
        (
            SessionStage::Media,
            SessionAction::FindMedia {
                id: value_or_default(request.query.media_source_id, request.item_id),
            },
        )
    }
}

fn start(
    request: &SessionRequest,
    source: PlaySource,
    is_live: bool,
    runtime_ticks: i64,
) -> (next: (SessionStage, SessionAction))
    ensures
        starts(*request, source, is_live, runtime_ticks, next),
{
    (
        SessionStage::Finished,
        SessionAction::StartTranscode {
            session: make_session(request, &source, is_live, runtime_ticks),
            params: make_params(request, &source, is_live),
        },
    )
}

fn time(request: &SessionRequest, source: PlaySource, is_live: bool) -> (next: (
    SessionStage,
    SessionAction,
))
    ensures
        timed_step(*request, source, is_live, next),
{
    if is_live {
        return start(request, source, true, 0);
    }
    match count_source_ticks(&source) {
        Some(ticks) => start(request, source, false, ticks),
        None => (SessionStage::ItemRuntime { source }, SessionAction::FindItemRuntime),
    }
}

fn play_stream(request: &SessionRequest, stream: Media, runtime: Option<i64>) -> (next: (
    SessionStage,
    SessionAction,
))
    ensures
        stream_step(*request, stream, runtime, next),
{
    match make_source(stream, runtime) {
        None => refuse("media source has no URL"),
        Some(source) => {
            let wanted: MediaId = value_or_default(
                request.query.media_source_id,
                request.item_id,
            );
            if request.item_id != wanted {
                (SessionStage::Parent { source }, SessionAction::FindParent)
            } else {
                let is_live: bool = source.is_channel;
                time(request, source, is_live)
            }
        },
    }
}

fn play_item(request: &SessionRequest, media: Media, runtime: Option<i64>) -> (next: (
    SessionStage,
    SessionAction,
))
    ensures
        item_step(*request, media, runtime, next),
{
    match media.kind {
        MediaKind::Movie | MediaKind::Episode => (
            SessionStage::Streams { runtime, of_track: false },
            SessionAction::FindStreams { of: media.id },
        ),
        MediaKind::Track => (
            SessionStage::Streams { runtime, of_track: true },
            SessionAction::FindStreams { of: media.id },
        ),
        _ => play_stream(request, media, runtime),
    }
}

/// Makes the transcode of a play session or finds the one it has: from the stage
/// of the making and what happened to the stage that follows and what is to be
/// done. It starts at [`SessionStage::Start`]. Requests of one play session take
/// turns.
pub fn create_hls_session(
    request: &SessionRequest,
    stage: SessionStage,
    event: SessionEvent,
) -> (next: (SessionStage, SessionAction))
    ensures
        session_step(*request, stage, event, next),
{
    match (stage, event) {
        (SessionStage::Start, SessionEvent::Running(running)) => {
            let seeking: bool = match request.query.start_time_ticks {
                Some(t) => t > 0,
                None => false,
            };
            if running && seeking {
                (SessionStage::Stopped, SessionAction::StopTranscode)
            } else {
                reuse_or_find(request, running)
            }
        },
        (SessionStage::Stopped, SessionEvent::Running(running)) => reuse_or_find(request, running),
        (SessionStage::Media, SessionEvent::Media(found)) => match found {
            None => refuse("media not found"),
            Some(media) => if media.kind == MediaKind::StreamGroup {
                (
                    SessionStage::Group { runtime: media.runtime },
                    SessionAction::FindGroupStreams { group: media.id },
                )
            } else {
                let runtime: Option<i64> = media.runtime;
                play_item(request, media, runtime)
            },
        },
        (SessionStage::Group { runtime }, SessionEvent::Streams(mut streams)) => {
            if streams.is_empty() {
                refuse("no streams available for this group")
            } else {
                let first: Media = streams.swap_remove(0);
                play_item(request, first, runtime)
            }
        },
        (SessionStage::Streams { runtime, of_track }, SessionEvent::Streams(mut streams)) => {
            if of_track {
                if streams.is_empty() {
                    refuse("no stream found for track")
                } else {
                    let first: Media = streams.swap_remove(0);
                    play_stream(request, first, runtime)
                }
            } else {
                match choose_source(&streams, request.query.media_source_id) {
                    None => refuse("no playable source found"),
                    Some(k) => {
                        let chosen: Media = streams.swap_remove(k);
                        play_stream(request, chosen, runtime)
                    },
                }
            }
        },
        (SessionStage::Parent { source }, SessionEvent::Parent(kind)) => {
            let parent_is_channel: bool = match kind {
                Some(MediaKind::TvChannel) => true,
                _ => false,
            };
            let is_live: bool = source.is_channel || parent_is_channel;
            time(request, source, is_live)
        },
        (SessionStage::ItemRuntime { source }, SessionEvent::ItemRuntime(runtime)) => {
            let ticks: i64 = value_or_default(count_ticks(runtime), 0);
            start(request, source, false, ticks)
        },
        (stage, _) => (stage, SessionAction::Ignore),
    }
}

// ---------------------------------------------------------------------------
// Laws
// ---------------------------------------------------------------------------

/// How many events the making of a session can still wait for.
pub open spec fn events_left(stage: SessionStage) -> nat {
    match stage {
        SessionStage::Start => 7,
        SessionStage::Stopped => 6,
        SessionStage::Media => 5,
        SessionStage::Group { .. } => 4,
        SessionStage::Streams { .. } => 3,
        SessionStage::Parent { .. } => 2,
        SessionStage::ItemRuntime { .. } => 1,
        SessionStage::Finished => 0,
    }
}

/// Every event that is waited for brings the making of a session nearer to its
/// end, and it ends with a transcode or a refusal.
pub proof fn sessions_get_made(
    request: SessionRequest,
    stage: SessionStage,
    event: SessionEvent,
    next: (SessionStage, SessionAction),
)
    requires
        session_step(request, stage, event, next),
    ensures
        next.1 is Ignore ==> next.0 == stage,
        next.1 !is Ignore ==> events_left(next.0) < events_left(stage),
        next.1 !is Ignore ==> (next.0 is Finished <==> next.1 is Reuse
            || next.1 is StartTranscode || next.1 is NotFound),
{
}

/// A seek never goes on with the transcode that runs: it is stopped first.
pub proof fn seeks_stop_the_transcode(
    request: SessionRequest,
    running: bool,
    next: (SessionStage, SessionAction),
)
    requires
        is_seeking(request.query),
        session_step(request, SessionStage::Start, SessionEvent::Running(running), next),
    ensures
        next.1 !is Reuse,
        running ==> next.1 is StopTranscode,
{
}

/// A live session has no running time, and its sound is never a copy.
pub proof fn live_sessions_encode_their_sound(
    request: SessionRequest,
    stage: SessionStage,
    event: SessionEvent,
    next: (SessionStage, SessionAction),
)
    requires
        session_step(request, stage, event, next),
    ensures
        next.1 matches SessionAction::StartTranscode { session, params } ==> session.is_live ==> {
            &&& session.runtime_ticks == 0
            &&& session.audio_codec@ != "copy"@
            &&& params.audio_channels == Some(2u32)
        },
{
    reveal_strlit("aac");
    reveal_strlit("copy");
    assert("aac"@.len() != "copy"@.len());
}

/// Sound is only copied where the client asks for it, the source is not live and
/// its sound is not in AAC Main profile.
pub proof fn copied_sound_can_be_played(
    query: HlsVideoQuery,
    audio: Option<MediaStream>,
    is_live: bool,
)
    ensures
        audio_codec_for(query, audio, is_live) == "copy"@ <==> text_or(query.audio_codec, "aac"@)
            == "copy"@ && !is_live && !is_main_aac(audio),
{
    reveal_strlit("aac");
    reveal_strlit("copy");
    assert("aac"@.len() != "copy"@.len());
}

/// The session and the encoder are told the same.
pub proof fn sessions_say_what_is_encoded(
    request: SessionRequest,
    stage: SessionStage,
    event: SessionEvent,
    next: (SessionStage, SessionAction),
)
    requires
        session_step(request, stage, event, next),
    ensures
        next.1 matches SessionAction::StartTranscode { session, params } ==> {
            &&& session.input_url@ == params.input_url@
            &&& session.video_codec@ == params.video_codec@
            &&& session.audio_codec@ == params.audio_codec@
            &&& session.segment_length == params.segment_length
            &&& session.audio_stream_index == params.audio_stream_index
            &&& session.subtitle_stream_index == params.subtitle_stream_index
            &&& session.burn_subtitle == params.burn_subtitle
            &&& session.is_live == params.is_live
            &&& session.source_video_codec == params.source_video_codec
            &&& session.source_audio_codec == params.source_audio_codec
            &&& session.source_video_range_type == params.source_video_range_type
        },
{
}

/// The picture is never given more bits than the source has, the client asks for
/// or the client takes.
pub proof fn bit_rates_stay_below(query: HlsVideoQuery, video: Option<MediaStream>)
    ensures
        video_bitrate_for(query, video) matches Some(rate) ==> {
            &&& video matches Some(s) && s.bit_rate matches Some(b) && rate <= low_u32(b)
            &&& narrow(query.video_bit_rate) matches Some(asked) ==> rate <= asked
            &&& narrow(query.max_streaming_bitrate) matches Some(taken) ==> rate <= taken
        },
{
}

/// A running time is never shorter than the stored or the probed one.
pub proof fn running_times_are_not_cut_short(source: PlaySource)
    ensures
        ticks_of(source.runtime) matches Some(stored) ==> source_ticks(source) matches Some(t)
            && t >= stored,
        positive(source.probed_ticks) matches Some(probed) ==> source_ticks(source) matches Some(t)
            && t >= probed,
{
}

/// A play session that a query names is kept, and one that it does not name is new.
pub proof fn named_play_sessions_are_kept(query: &HlsVideoQuery, fresh: MediaId, r: String)
    requires
        call_ensures(play_session_of, (query, fresh), r),
    ensures
        query.play_session_id matches Some(id) ==> r@ == id@,
        query.play_session_id is None ==> r@ == fresh.simple(),
{
}

/// Whatever a session plays, the encoder starts where the client asks it to, and in
/// the sizes and at the bit rate of the sound that the client asks for.
pub proof fn encoders_start_where_the_client_asks(
    request: &SessionRequest,
    stage: SessionStage,
    event: SessionEvent,
    next: (SessionStage, SessionAction),
)
    requires
        call_ensures(create_hls_session, (request, stage, event), next),
    ensures
        next.1 matches SessionAction::StartTranscode { session, params } ==> {
            &&& params.start_time_ticks == request.query.start_time_ticks
            &&& params.max_width is None <==> request.query.max_width is None
            &&& request.query.max_width matches Some(n) ==> (n - params.max_width->0)
                % 0x1_0000_0000 == 0
            &&& params.max_height is None <==> request.query.max_height is None
            &&& request.query.max_height matches Some(n) ==> (n - params.max_height->0)
                % 0x1_0000_0000 == 0
            &&& params.audio_bitrate is None <==> request.query.audio_bit_rate is None
            &&& request.query.audio_bit_rate matches Some(n) ==> (n - params.audio_bitrate->0)
                % 0x1_0000_0000 == 0
            &&& params.settings.are_of(request.options)
        },
{
    if let Some(n) = request.query.max_width {
        crate::transcode::low_halves_are_congruent(n);
    }
    if let Some(n) = request.query.max_height {
        crate::transcode::low_halves_are_congruent(n);
    }
    if let Some(n) = request.query.audio_bit_rate {
        crate::transcode::low_halves_are_congruent(n);
    }
}

/// Whatever a session plays, it is the session of the request, for its item and the
/// source it names, and with the streams and the subtitle it chooses.
pub proof fn sessions_are_those_of_their_request(
    request: &SessionRequest,
    stage: SessionStage,
    event: SessionEvent,
    next: (SessionStage, SessionAction),
)
    requires
        call_ensures(create_hls_session, (request, stage, event), next),
    ensures
        next.1 matches SessionAction::StartTranscode { session, params } ==> {
            &&& session.id@ == request.play_session_id@
            &&& session.item_id == request.item_id
            &&& request.query.media_source_id matches Some(id) ==> session.media_source_id == id
            &&& request.query.media_source_id is None ==> session.media_source_id
                == request.item_id
            &&& session.transcode_reasons == request.query.transcode_reasons
            &&& session.burn_subtitle <==> request.query.subtitle_method == Some(
                SubtitleDeliveryMethod::Encode,
            )
            &&& request.query.segment_length is None ==> session.segment_length == 6
            &&& request.query.segment_length matches Some(n) ==> (n - session.segment_length)
                % 0x1_0000_0000 == 0
            &&& session.subtitle_stream_index is None
                <==> request.query.subtitle_stream_index is None
            &&& request.query.subtitle_stream_index matches Some(n) ==> (n
                - session.subtitle_stream_index->0) % 0x1_0000_0000 == 0
            &&& session.audio_stream_index matches Some(k) ==> k >= 0 && (
            request.query.audio_stream_index matches Some(n) && (n - k) % 0x1_0000_0000 == 0)
            &&& request.query.audio_stream_index matches Some(n) ==> 0 <= n <= i32::MAX ==> (
            session.audio_stream_index matches Some(k) && k == n)
            &&& params.audio_channels == (if params.audio_codec@ == "copy"@ {
                None
            } else {
                Some(2u32)
            })
        },
{
    if let Some(n) = request.query.segment_length {
        crate::transcode::low_halves_are_congruent(n);
    }
    if let Some(n) = request.query.subtitle_stream_index {
        crate::transcode::low_halves_are_congruent(n);
    }
    if let Some(n) = request.query.audio_stream_index {
        crate::transcode::low_halves_are_congruent(n);
    }
}

/// The picture is encoded exactly if the client names a codec other than a copy and
/// the server transcodes, and then always in H.264.
pub proof fn pictures_are_copied_or_h264(
    query: &HlsVideoQuery,
    options: &EncodingOptions,
    r: String,
)
    requires
        call_ensures(choose_video_codec, (query, options), r),
    ensures
        (query.video_codec matches Some(c) && c@ != "copy"@) && options.enable_video_transcoding
            != Some(false) ==> r@ == "h264"@,
        query.video_codec is None ==> r@ == "copy"@,
        query.video_codec matches Some(c) ==> c@ == "copy"@ ==> r@ == "copy"@,
        options.enable_video_transcoding == Some(false) ==> r@ == "copy"@,
{
}

/// The codec of the sound is the one that the client asks for, or AAC where it asks
/// for none, or where it asks for a copy that could not be played.
pub proof fn sound_is_what_the_client_asks_for(
    query: &HlsVideoQuery,
    audio: &Option<MediaStream>,
    is_live: bool,
    r: String,
)
    requires
        call_ensures(choose_audio_codec, (query, audio, is_live), r),
    ensures
        query.audio_codec is None ==> r@ == "aac"@,
        query.audio_codec matches Some(c) ==> c@ != "copy"@ ==> r@ == c@,
        query.audio_codec matches Some(c) ==> c@ == "copy"@ ==> {
            &&& is_live ==> r@ == "aac"@
            &&& !is_live && *audio is None ==> r@ == "copy"@
            &&& !is_live ==> (*audio matches Some(s) ==> match s.codec {
                None => r@ == "copy"@,
                Some(codec) => if ascii_lowered(codec@) != ascii_lowered("aac"@) {
                    r@ == "copy"@
                } else {
                    match (s.profile, s.display_title) {
                        (Some(profile), _) => r@ == (if ascii_lowered(profile@) == ascii_lowered(
                            "main"@,
                        ) {
                            "aac"@
                        } else {
                            "copy"@
                        }),
                        (None, Some(title)) => r@ == (if begins_with(title@, "Main"@) {
                            "aac"@
                        } else {
                            "copy"@
                        }),
                        (None, None) => r@ == "copy"@,
                    }
                },
            })
        },
{
    reveal_strlit("aac");
    reveal_strlit("copy");
    assert("aac"@.len() != "copy"@.len());
}

/// A source runs as long as the longer of what is stored of it, in seconds, and
/// what its probe found, in ticks. A time that is not above zero says nothing, nor
/// does a stored one whose ticks do not fit.
pub proof fn sources_run_for_the_longer_time(source: &PlaySource, r: Option<i64>)
    requires
        call_ensures(count_source_ticks, (source,), r),
    ensures
        source.probed_ticks matches Some(p) ==> p > 0 ==> (r matches Some(t) && t >= p),
        source.runtime matches Some(s) ==> s > 0 && s * 10_000_000 <= i64::MAX ==> (
        r matches Some(t) && t >= s * 10_000_000),
        r matches Some(t) ==> t > 0 && (source.probed_ticks == Some(t) || (
        source.runtime matches Some(s) && t == s * 10_000_000)),
{
}

/// The bit rate of the picture is the lowest of that of the source and of those
/// that the client asks for and takes. Without that of the source there is none.
pub proof fn bit_rates_are_the_lowest(
    query: &HlsVideoQuery,
    video: &Option<MediaStream>,
    r: Option<u32>,
)
    requires
        call_ensures(choose_video_bitrate, (query, video), r),
    ensures
        *video is None ==> r is None,
        *video matches Some(s) ==> match s.bit_rate {
            None => r is None,
            Some(own) => r matches Some(rate) && {
                &&& rate <= low_u32(own)
                &&& query.video_bit_rate matches Some(asked) ==> rate <= low_u32(asked)
                &&& query.max_streaming_bitrate matches Some(taken) ==> rate <= low_u32(taken)
                &&& {
                    ||| rate == low_u32(own)
                    ||| query.video_bit_rate matches Some(asked) && rate == low_u32(asked)
                    ||| query.max_streaming_bitrate matches Some(taken) && rate == low_u32(taken)
                }
            },
        },
{
}

/// A stream is played at its address, with what its probe found. Its own running
/// time counts before that of the item.
pub proof fn streams_are_played_at_their_address(stream: Media, runtime: Option<i64>)
    ensures
        source_of(stream, runtime) is None <==> stream.stream_info is None,
        source_of(stream, runtime) matches Some(source) ==> {
            &&& source.input_url@ == stream.stream_info->0.server_input@
            &&& source.is_channel <==> stream.kind == MediaKind::TvChannel
            &&& stream.runtime is Some ==> source.runtime == stream.runtime
            &&& stream.runtime is None ==> source.runtime == runtime
            &&& stream.probe_data matches Some(probe) ==> source.probed_ticks
                == probe.run_time_ticks && source.video == probe.video_stream && source.audio
                == probe.audio_stream
            &&& stream.probe_data is None ==> source.probed_ticks is None && source.video is None
                && source.audio is None
        },
{
}

/// The encoder plays the source, and the session tells what the source is.
pub proof fn encoders_play_the_source(
    request: SessionRequest,
    source: PlaySource,
    is_live: bool,
    runtime_ticks: i64,
    next: (SessionStage, SessionAction),
)
    requires
        starts(request, source, is_live, runtime_ticks, next),
    ensures
        next.0 is Finished,
        next.1 matches SessionAction::StartTranscode { session, params } && {
            &&& session.input_url@ == source.input_url@ && params.input_url@ == source.input_url@
            &&& session.is_live == is_live && params.is_live == is_live
            &&& session.runtime_ticks == runtime_ticks
            &&& session.video_codec@ == params.video_codec@ && params.video_codec@ == video_codec_for(
                request.query,
                request.options,
            )
            &&& session.audio_codec@ == params.audio_codec@ && params.audio_codec@ == audio_codec_for(
                request.query,
                source.audio,
                is_live,
            )
            &&& params.video_bitrate == video_bitrate_for(request.query, source.video)
            &&& source.video matches Some(video) ==> session.source_video_codec == video.codec
                && session.source_video_profile == video.profile && session.source_video_level
                == video.level && session.source_video_range_type == video.video_range_type
                && session.source_video_width == video.width && session.source_video_height
                == video.height && session.source_frame_rate == video.real_frame_rate
            &&& source.video is None ==> session.source_video_codec is None
                && session.source_video_profile is None && session.source_video_level is None
                && session.source_video_range_type is None && session.source_video_width is None
                && session.source_video_height is None && session.source_frame_rate is None
            &&& source.audio matches Some(audio) ==> session.source_audio_codec == audio.codec
            &&& source.audio is None ==> session.source_audio_codec is None
            &&& params.source_video_codec == session.source_video_codec
            &&& params.source_audio_codec == session.source_audio_codec
            &&& params.source_video_range_type == session.source_video_range_type
        },
{
}

/// Once it is known whether a source is live, it is played: a live one without a
/// running time, another one with its own. Where it has none, the item is asked,
/// and a source whose item has none either runs for no time that is known.
pub proof fn sources_are_timed(
    request: SessionRequest,
    source: PlaySource,
    is_live: bool,
    next: (SessionStage, SessionAction),
)
    requires
        timed_step(request, source, is_live, next),
    ensures
        is_live ==> starts(request, source, true, 0, next),
        !is_live ==> match source_ticks(source) {
            Some(ticks) => starts(request, source, false, ticks, next),
            None => next.1 is FindItemRuntime && (next.0 matches SessionStage::ItemRuntime {
                source: kept,
            } && kept == source),
        },
        next.1 is StartTranscode || next.1 is FindItemRuntime,
{
}

/// A stream without an address is refused. One that the client names apart from
/// its item waits to hear what the item is, and any other is played at once.
pub proof fn streams_are_played(
    request: SessionRequest,
    stream: Media,
    runtime: Option<i64>,
    next: (SessionStage, SessionAction),
)
    requires
        stream_step(request, stream, runtime, next),
    ensures
        stream.stream_info is None ==> next.0 is Finished && (next.1 matches SessionAction::NotFound(
            t,
        ) && t@ == "media source has no URL"@),
        stream.stream_info is Some && (request.query.media_source_id matches Some(id) && id
            != request.item_id) ==> next.1 is FindParent && (next.0 matches SessionStage::Parent {
            source,
        } && source_of(stream, runtime) == Some(source)),
        stream.stream_info is Some && !(request.query.media_source_id matches Some(id) && id
            != request.item_id) ==> timed_step(
            request,
            source_of(stream, runtime)->0,
            stream.kind == MediaKind::TvChannel,
            next,
        ),
{
}

/// Films, episodes and tracks are played through their streams, and everything else
/// is played itself.
pub proof fn items_are_played_through_their_streams(
    request: SessionRequest,
    media: Media,
    runtime: Option<i64>,
    next: (SessionStage, SessionAction),
)
    requires
        item_step(request, media, runtime, next),
    ensures
        media.kind == MediaKind::Movie || media.kind == MediaKind::Episode || media.kind
            == MediaKind::Track ==> next.1 == (SessionAction::FindStreams { of: media.id })
            && next.0 == (SessionStage::Streams {
            runtime,
            of_track: media.kind == MediaKind::Track,
        }),
        media.kind != MediaKind::Movie && media.kind != MediaKind::Episode && media.kind
            != MediaKind::Track ==> stream_step(request, media, runtime, next),
{
}

/// A request goes on with the transcode of its play session unless it seeks. Then
/// the transcode is stopped, and whatever runs afterwards is gone on with. Where
/// none runs, the source that the client names is looked for, else the item.
pub proof fn transcodes_are_gone_on_with(
    request: &SessionRequest,
    stage: SessionStage,
    event: SessionEvent,
    next: (SessionStage, SessionAction),
)
    requires
        call_ensures(create_hls_session, (request, stage, event), next),
    ensures
        stage is Start && event == SessionEvent::Running(true) && (
        request.query.start_time_ticks matches Some(t) && t > 0) ==> next.0 is Stopped
            && next.1 is StopTranscode,
        stage is Start && event == SessionEvent::Running(true) && !(
        request.query.start_time_ticks matches Some(t) && t > 0) ==> next.0 is Finished
            && next.1 is Reuse,
        stage is Stopped && event == SessionEvent::Running(true) ==> next.0 is Finished
            && next.1 is Reuse,
        (stage is Start || stage is Stopped) && event == SessionEvent::Running(false)
            ==> next.0 is Media && (next.1 matches SessionAction::FindMedia { id } && id == (
        match request.query.media_source_id {
            Some(named) => named,
            None => request.item_id,
        })),
        next.1 is StopTranscode ==> stage is Start && event == SessionEvent::Running(true),
        next.1 is Reuse ==> event == SessionEvent::Running(true),
{
}

/// What is looked for is played: a group through its first stream, a film or an
/// episode through the source that the client names, a track through its first
/// stream, and anything else itself. What is not there is refused.
pub proof fn what_is_found_is_played(
    request: &SessionRequest,
    stage: SessionStage,
    event: SessionEvent,
    next: (SessionStage, SessionAction),
)
    requires
        call_ensures(create_hls_session, (request, stage, event), next),
    ensures
        stage is Media ==> (event matches SessionEvent::Media(found) ==> match found {
            None => next.0 is Finished && (next.1 matches SessionAction::NotFound(t) && t@
                == "media not found"@),
            Some(media) => if media.kind == MediaKind::StreamGroup {
                next.0 == (SessionStage::Group { runtime: media.runtime }) && next.1 == (
                SessionAction::FindGroupStreams { group: media.id })
            } else {
                item_step(*request, media, media.runtime, next)
            },
        }),
        stage matches SessionStage::Group { runtime } ==> event matches SessionEvent::Streams(
            streams,
        ) ==> if streams@.len() == 0 {
            next.0 is Finished && (next.1 matches SessionAction::NotFound(t) && t@
                == "no streams available for this group"@)
        } else {
            item_step(*request, streams@[0], runtime, next)
        },
        stage matches SessionStage::Streams { runtime, of_track } ==> event
            matches SessionEvent::Streams(streams) ==> {
            &&& of_track && streams@.len() == 0 ==> next.0 is Finished && (
            next.1 matches SessionAction::NotFound(t) && t@ == "no stream found for track"@)
            &&& of_track && streams@.len() > 0 ==> stream_step(
                *request,
                streams@[0],
                runtime,
                next,
            )
            &&& !of_track ==> match source_choice(streams@, request.query.media_source_id) {
                None => next.0 is Finished && (next.1 matches SessionAction::NotFound(t) && t@
                    == "no playable source found"@),
                Some(k) => stream_step(*request, streams@[k], runtime, next),
            }
        },
        stage matches SessionStage::Parent { source } ==> event matches SessionEvent::Parent(kind)
            ==> timed_step(
            *request,
            source,
            source.is_channel || kind == Some(MediaKind::TvChannel),
            next,
        ),
        stage matches SessionStage::ItemRuntime { source } ==> event
            matches SessionEvent::ItemRuntime(runtime) ==> {
            &&& runtime matches Some(s) ==> s > 0 && s * 10_000_000 <= i64::MAX ==> starts(
                *request,
                source,
                false,
                (s * 10_000_000) as i64,
                next,
            )
            &&& !(runtime matches Some(s) && s > 0 && s * 10_000_000 <= i64::MAX) ==> starts(
                *request,
                source,
                false,
                0,
                next,
            )
        },
        next.1 is Ignore <==> !((stage is Start || stage is Stopped) && event is Running) && !(
        stage is Media && event is Media) && !((stage is Group || stage is Streams)
            && event is Streams) && !(stage is Parent && event is Parent) && !(stage is ItemRuntime
            && event is ItemRuntime),
        next.1 is Ignore ==> next.0 == stage,
{
}

} // verus!
