//! Serving the segments that a transcode writes.

use vstd::prelude::*;

use crate::hls::strip_segment_extension;
use crate::number::parse_u32;
use crate::number::u32_value;
use crate::reply::ReplyHead;
use crate::text::after_last;
use crate::text::before_last;
use crate::text::chars_of;
use crate::text::ends_with;
use crate::text::finishes_with;
use crate::text::part_of;
use crate::text::same_text;
use crate::text::string_of;
use crate::text::tail_after;
use crate::text::texts;
use crate::transcode::audio_channels;
use crate::transcode::channels_for;
use crate::transcode::low_u32;
use crate::transcode::narrow;
use crate::transcode::narrowed;
use crate::transcode::seconds_to_ticks;
use crate::transcode::ticks_of_seconds;
use crate::transcode::value_or;
use crate::transcode::EncoderSettings;
use crate::transcode::EncodingOptions;
use crate::transcode::HlsVideoQuery;
use crate::transcode::TranscodeParams;
use crate::transcode::TranscodeSession;
use crate::transcode::TranscodeState;

verus! {

/// How often, and how long each time, a request waits for the first part of a
/// fragmented MP4.
pub const INIT_WAITS: u32 = 40;

pub const INIT_WAIT_MILLIS: u64 = 250;

/// How often, and how long each time, a request waits for a segment.
pub const SEGMENT_WAITS: u32 = 120;

pub const SEGMENT_WAIT_MILLIS: u64 = 500;

/// How far behind the encoder a request may be, in seconds, before the encoder is
/// started anew nearer to it.
pub const GAP_SECONDS: u32 = 24;

// ---------------------------------------------------------------------------
// Segment numbers
// ---------------------------------------------------------------------------

/// A name without an ending.
pub open spec fn without_suffix(name: Seq<char>, suffix: Seq<char>) -> Option<Seq<char>> {
    if finishes_with(name, suffix) {
        Some(name.take(name.len() - suffix.len()))
    } else {
        None
    }
}

fn strip_suffix(name: &str, suffix: &str) -> (r: Option<String>)
    ensures
        match r {
            Some(s) => without_suffix(name@, suffix@) == Some(s@),
            None => without_suffix(name@, suffix@) is None,
        },
{
    if ends_with(name, suffix) {
        let chars: Vec<char> = chars_of(name);
        let tail: Vec<char> = chars_of(suffix);
        let stem: Vec<char> = part_of(&chars, 0, chars.len() - tail.len());
        assert(stem@ =~= name@.take(name@.len() - suffix@.len()));
        Some(string_of(&stem))
    } else {
        None
    }
}

/// The number at the end of a name, behind its last underscore.
pub open spec fn segment_number(name: Seq<char>) -> Option<u32> {
    u32_value(after_last(name, '_'))
}

/// The number at the end of a name.
pub fn read_segment_number(name: &str) -> (r: Option<u32>)
    ensures
        r == segment_number(name@),
{
    let tail: String = tail_after(name, '_');
    parse_u32(tail.as_str())
}

/// The number of a segment file; `None` for any other file.
pub open spec fn file_number(file: Seq<char>) -> Option<u32> {
    match without_suffix(file, ".ts"@) {
        Some(name) => segment_number(name),
        None => match without_suffix(file, ".m4s"@) {
            Some(name) => segment_number(name),
            None => None,
        },
    }
}

fn read_file_number(file: &str) -> (r: Option<u32>)
    ensures
        r == file_number(file@),
{
    match strip_suffix(file, ".ts") {
        Some(name) => read_segment_number(name.as_str()),
        None => match strip_suffix(file, ".m4s") {
            Some(name) => read_segment_number(name.as_str()),
            None => None,
        },
    }
}

/// The highest number among segment files.
pub open spec fn highest_number(files: Seq<Seq<char>>) -> Option<u32>
    decreases files.len(),
{
    if files.len() == 0 {
        None
    } else {
        match (highest_number(files.drop_last()), file_number(files.last())) {
            (Some(m), Some(n)) => Some(
                if m >= n {
                    m
                } else {
                    n
                },
            ),
            (Some(m), None) => Some(m),
            (None, n) => n,
        }
    }
}

/// The highest segment number among the files of a directory.
pub fn get_current_transcoding_index(files: &Vec<String>) -> (r: Option<u32>)
    ensures
        r == highest_number(texts(files@)),
{
    let mut highest: Option<u32> = None;
    let mut k: usize = 0;
    let ghost names = texts(files@);
    assert(names.take(0) =~= Seq::<Seq<char>>::empty());
    while k < files.len()
        invariant
            k <= files.len(),
            names == texts(files@),
            highest == highest_number(names.take(k as int)),
        decreases files.len() - k,
    {
        proof {
            assert(names.take(k + 1).drop_last() =~= names.take(k as int));
            assert(names.take(k + 1).last() == files@[k as int]@);
        }
        let number: Option<u32> = read_file_number(files[k].as_str());
        highest = match (highest, number) {
            (Some(m), Some(n)) => if m >= n {
                Some(m)
            } else {
                Some(n)
            },
            (Some(m), None) => Some(m),
            (None, n) => n,
        };
        k += 1;
    }
    assert(names.take(k as int) =~= names);
    highest
}

/// No segment file has a higher number than the highest, and one has it.
pub proof fn highest_number_is_highest(files: Seq<Seq<char>>)
    ensures
        match highest_number(files) {
            Some(m) => (exists|k: int|
                0 <= k < files.len() && file_number(#[trigger] files[k]) == Some(m)) && (forall|
                k: int,
            |
                0 <= k < files.len() ==> (file_number(#[trigger] files[k]) matches Some(n) ==> n
                    <= m)),
            None => forall|k: int|
                0 <= k < files.len() ==> file_number(#[trigger] files[k]) is None,
        },
    decreases files.len(),
{
    if files.len() > 0 {
        let head = files.drop_last();
        let last = files.len() - 1;
        highest_number_is_highest(head);
        assert forall|k: int| 0 <= k < last implies files[k] == head[k] by {}
        assert(files[last] == files.last());
        match (highest_number(head), file_number(files.last())) {
            (Some(m), n) => {
                let j = choose|j: int|
                    0 <= j < head.len() && file_number(#[trigger] head[j]) == Some(m);
                assert(files[j] == head[j]);
                assert forall|k: int| 0 <= k < files.len() implies (file_number(
                    #[trigger] files[k],
                ) matches Some(x) ==> x <= highest_number(files)->0) by {
                    if k < last {
                        assert(files[k] == head[k]);
                    }
                }
            },
            (None, Some(n)) => {
                assert(file_number(files[last]) == Some(n));
                assert forall|k: int| 0 <= k < files.len() implies (file_number(
                    #[trigger] files[k],
                ) matches Some(x) ==> x <= n) by {
                    if k < last {
                        assert(files[k] == head[k]);
                    }
                }
            },
            (None, None) => {
                assert forall|k: int| 0 <= k < files.len() implies file_number(
                    #[trigger] files[k],
                ) is None by {
                    if k < last {
                        assert(files[k] == head[k]);
                    }
                }
            },
        }
    }
}

// ---------------------------------------------------------------------------
// Starting the encoder anew
// ---------------------------------------------------------------------------

/// A segment that is not there will not come from the encoder as it runs: the
/// encoder is past it, too far before it, or has ended without any segment.
pub open spec fn is_out_of_reach(
    requested: u32,
    current: Option<u32>,
    segment_length: u32,
    state: TranscodeState,
) -> bool {
    match current {
        None => state == TranscodeState::Error || state == TranscodeState::Complete,
        Some(cur) => requested < cur || requested - cur > GAP_SECONDS / segment_length,
    }
}

/// Whether a segment that is not there will not come from the encoder as it runs.
pub fn out_of_reach(
    requested: u32,
    current: Option<u32>,
    segment_length: u32,
    state: TranscodeState,
) -> (r: bool)
    requires
        segment_length > 0,
    ensures
        r == is_out_of_reach(requested, current, segment_length, state),
{
    let threshold: u32 = GAP_SECONDS / segment_length;
    match current {
        None => state == TranscodeState::Error || state == TranscodeState::Complete,
        Some(cur) => if requested < cur {
            true
        } else {
            requested - cur > threshold
        },
    }
}

/// Where the encoder is started anew: where the client says that the segment
/// starts, else where it starts if all segments before it have the full length.
pub open spec fn restart_ticks(query: HlsVideoQuery, requested: u32, segment_length: u32) -> i64 {
    match query.runtime_ticks {
        Some(ticks) => ticks,
        None => value_or(ticks_of_seconds(requested * segment_length), 0),
    }
}

fn count_restart_ticks(query: &HlsVideoQuery, requested: u32, segment_length: u32) -> (r: i64)
    requires
        query.runtime_ticks is None ==> requested * segment_length <= i64::MAX,
    ensures
        r == restart_ticks(*query, requested, segment_length),
{
    match query.runtime_ticks {
        Some(ticks) => ticks,
        None => {
            assert(0 <= requested * segment_length) by (nonlinear_arith);
            assert(requested * segment_length <= u64::MAX) by (nonlinear_arith)
                requires
                    requested <= u32::MAX,
                    segment_length <= u32::MAX,
            ;
            let seconds: u64 = requested as u64 * segment_length as u64;
            match seconds_to_ticks(seconds as i64) {
                Some(ticks) => ticks,
                None => 0,
            }
        },
    }
}

/// Ticks in whole seconds, towards zero.
pub open spec fn whole_seconds(ticks: i64) -> i64 {
    if ticks >= 0 {
        (ticks as int / 10_000_000) as i64
    } else {
        (-((-(ticks as int)) / 10_000_000)) as i64
    }
}

fn count_seconds(ticks: i64) -> (r: i64)
    ensures
        r == whole_seconds(ticks),
{
    if ticks >= 0 {
        (ticks as u64 / 10_000_000) as i64
    } else {
        let size: u64 = (-(ticks as i128)) as u64;
        let seconds: u64 = size / 10_000_000;
        -(seconds as i64)
    }
}

/// What the encoder is told when it is started anew for a session. The client may
/// ask for other sizes and bit rates than before; the rest stays.
pub open spec fn are_restart_params(
    params: TranscodeParams,
    session: TranscodeSession,
    query: HlsVideoQuery,
    start_time_ticks: i64,
    options: EncodingOptions,
) -> bool {
    &&& params.input_url@ == session.input_url@
    &&& params.video_codec@ == session.video_codec@
    &&& params.audio_codec@ == session.audio_codec@
    &&& params.segment_length == session.segment_length
    &&& params.start_time_ticks == Some(start_time_ticks)
    &&& params.max_width == narrow(query.max_width)
    &&& params.max_height == narrow(query.max_height)
    &&& params.video_bitrate == narrow(query.video_bit_rate)
    &&& params.audio_bitrate == narrow(query.audio_bit_rate)
    &&& params.audio_channels == channels_for(session.audio_codec@)
    &&& params.audio_stream_index == session.audio_stream_index
    &&& params.subtitle_stream_index == session.subtitle_stream_index
    &&& params.burn_subtitle == session.burn_subtitle
    &&& params.source_video_codec == session.source_video_codec
    &&& params.source_audio_codec == session.source_audio_codec
    &&& params.source_video_range_type == session.source_video_range_type
    &&& !params.is_live
    &&& params.settings.are_of(options)
}

/// What the encoder is told when it is started anew for a session.
pub fn restart_params(
    session: &TranscodeSession,
    query: &HlsVideoQuery,
    start_time_ticks: i64,
    options: &EncodingOptions,
) -> (r: TranscodeParams)
    ensures
        are_restart_params(r, *session, *query, start_time_ticks, *options),
{
    TranscodeParams {
        input_url: session.input_url.clone(),
        video_codec: session.video_codec.clone(),
        audio_codec: session.audio_codec.clone(),
        segment_length: session.segment_length,
        start_time_ticks: Some(start_time_ticks),
        max_width: narrowed(query.max_width),
        max_height: narrowed(query.max_height),
        video_bitrate: narrowed(query.video_bit_rate),
        audio_bitrate: narrowed(query.audio_bit_rate),
        audio_channels: audio_channels(session.audio_codec.as_str()),
        audio_stream_index: session.audio_stream_index,
        subtitle_stream_index: session.subtitle_stream_index,
        burn_subtitle: session.burn_subtitle,
        source_video_codec: session.source_video_codec.clone(),
        source_audio_codec: session.source_audio_codec.clone(),
        source_video_range_type: session.source_video_range_type,
        is_live: false,
        settings: EncoderSettings::new(options),
    }
}

// ---------------------------------------------------------------------------
// The endpoint
// ---------------------------------------------------------------------------

/// A request for a segment.
#[derive(Debug)]
pub struct SegmentRequest {
    /// The name of the segment, without its extension.
    pub segment_id: String,
    pub query: HlsVideoQuery,
}

/// What a request waits for.
#[derive(Debug)]
pub enum SegmentStage {
    Start,
    /// Whether the play session has a transcode.
    Session { play_session_id: String },
    /// Whether the first part of a fragmented MP4 is there. Without a transcode it
    /// is not waited for.
    Init { has_session: bool, waits: u32 },
    /// Whether the segment is there.
    Segment { play_session_id: String, has_session: bool },
    /// How the transcode stands.
    Transcode { requested: u32 },
    /// Whether the segment is there by now.
    Waiting { waits: u32 },
    Finished,
}

/// What happened to a request.
#[derive(Debug)]
pub enum SegmentEvent {
    Begin,
    /// The furthest segment that was asked of the transcode of the play session;
    /// `None` where it has no transcode.
    Session(Option<u32>),
    /// Whether the file is there, and the extension of its name.
    File { present: bool, extension: Option<String> },
    /// How the transcode stands: whether its encoder runs, and the names of the
    /// files it has written.
    Transcode {
        segment_length: u32,
        state: TranscodeState,
        encoder_runs: bool,
        files: Vec<String>,
    },
}

/// What a request asks for next.
#[derive(Debug)]
pub enum SegmentAction {
    FindSession,
    LookForInit,
    /// Look whether the segment is there. Where `furthest` is given, it is the
    /// furthest segment asked for by now.
    LookForSegment { furthest: Option<u32> },
    /// Look how the transcode stands.
    InspectTranscode,
    /// End the encoder, empty the directory of the play session, and start the
    /// encoder anew at these ticks; then look for the segment. The session is
    /// starting again, at `start_time_secs`.
    Restart { start_time_ticks: i64, start_time_secs: u32 },
    /// Wait, then look for the file again.
    Wait { millis: u64 },
    /// Keep the play session alive and send the file.
    Serve { head: ReplyHead },
    NotFound(String),
    /// The event is not the one that was waited for: nothing is to be done.
    Ignore,
}

/// The number of the segment that is asked for.
pub open spec fn requested_number(request: SegmentRequest) -> Option<u32> {
    segment_number(request.segment_id@)
}

/// The content type of a segment, by the extension of its file.
pub open spec fn segment_type(extension: Option<String>) -> Seq<char> {
    if extension matches Some(e) && e@ == "m4s"@ {
        "video/mp4"@
    } else {
        "video/mp2t"@
    }
}

/// The encoder is started anew for a segment.
pub open spec fn restarts(requested: u32, event: SegmentEvent) -> bool {
    event matches SegmentEvent::Transcode { segment_length, state, encoder_runs, files }
        && encoder_runs && is_out_of_reach(
        requested,
        highest_number(texts(files@)),
        segment_length,
        state,
    )
}

/// The numbers in an event are such that they can be counted with: segments have
/// a length, and a start that has to be counted fits.
pub open spec fn numbers_fit(
    request: SegmentRequest,
    stage: SegmentStage,
    event: SegmentEvent,
) -> bool {
    event matches SegmentEvent::Transcode { segment_length, .. } ==> {
        &&& segment_length > 0
        &&& stage matches SegmentStage::Transcode { requested } ==> restarts(requested, event) ==> (
        request.query.runtime_ticks is None ==> requested * segment_length <= i64::MAX)
    }
}

/// Whether the numbers in an event are such that they can be counted with.
pub fn check_numbers(request: &SegmentRequest, stage: &SegmentStage, event: &SegmentEvent) -> (r:
    bool)
    ensures
        r == numbers_fit(*request, *stage, *event),
{
    match event {
        SegmentEvent::Transcode { segment_length, state, encoder_runs, files } => {
            if *segment_length == 0 {
                return false;
            }
            match stage {
                SegmentStage::Transcode { requested } => {
                    let current: Option<u32> = get_current_transcoding_index(files);
                    let starts: bool = *encoder_runs && out_of_reach(
                        *requested,
                        current,
                        *segment_length,
                        *state,
                    );
                    if starts && request.query.runtime_ticks.is_none() {
                        let n: u32 = *requested;
                        let length: u32 = *segment_length;
                        assert(0 <= n * length <= u64::MAX) by (nonlinear_arith)
                            requires
                                n <= u32::MAX,
                                length <= u32::MAX,
                        ;
                        n as u64 * length as u64 <= i64::MAX as u64
                    } else {
                        true
                    }
                },
                _ => true,
            }
        },
        _ => true,
    }
}

/// The request moves on to this stage with this action.
pub open spec fn moves_to(
    next: (SegmentStage, SegmentAction),
    stage: SegmentStage,
    action: SegmentAction,
) -> bool {
    next.0 == stage && next.1 == action
}

/// A refusal with this text.
pub open spec fn refuses(next: (SegmentStage, SegmentAction), text: Seq<char>) -> bool {
    next.0 is Finished && (next.1 matches SegmentAction::NotFound(t) && t@ == text)
}

/// The file is sent with this content type.
pub open spec fn serves(next: (SegmentStage, SegmentAction), content_type: Seq<char>) -> bool {
    next.0 is Finished && (next.1 matches SegmentAction::Serve { head } && head.is_segment(
        content_type,
    ))
}

/// How a request goes on once it is known whether there is a transcode.
pub open spec fn found_step(
    request: SegmentRequest,
    play_session_id: String,
    furthest: Option<u32>,
    next: (SegmentStage, SegmentAction),
) -> bool {
    if request.segment_id@ == "init"@ {
        moves_to(
            next,
            SegmentStage::Init { has_session: furthest is Some, waits: 0 },
            SegmentAction::LookForInit,
        )
    } else {
        moves_to(
            next,
            SegmentStage::Segment { play_session_id, has_session: furthest is Some },
            SegmentAction::LookForSegment {
                furthest: match (furthest, requested_number(request)) {
                    (Some(before), Some(number)) => if number > before {
                        Some(number)
                    } else {
                        None
                    },
                    _ => None,
                },
            },
        )
    }
}

/// How a request goes on after what it waited for has happened.
pub open spec fn segment_step(
    request: SegmentRequest,
    stage: SegmentStage,
    event: SegmentEvent,
    next: (SegmentStage, SegmentAction),
) -> bool {
    match (stage, event) {
        (SegmentStage::Start, SegmentEvent::Begin) => match request.query.play_session_id {
            None => refuses(next, "PlaySessionId is required"@),
            Some(id) => {
                &&& next.0 matches SegmentStage::Session { play_session_id } && play_session_id@
                    == id@
                &&& next.1 is FindSession
            },
        },
        (SegmentStage::Session { play_session_id }, SegmentEvent::Session(furthest)) => found_step(
            request,
            play_session_id,
            furthest,
            next,
        ),
        (
            SegmentStage::Init { has_session, waits },
            SegmentEvent::File { present, .. },
        ) => if present {
            serves(next, "video/mp4"@)
        } else if has_session && waits < INIT_WAITS {
            moves_to(
                next,
                SegmentStage::Init { has_session, waits: (waits + 1) as u32 },
                SegmentAction::Wait { millis: INIT_WAIT_MILLIS },
            )
        } else {
            refuses(next, "fMP4 init segment not ready"@)
        },
        (
            SegmentStage::Segment { play_session_id, has_session },
            SegmentEvent::File { present, extension },
        ) => if present {
            serves(next, segment_type(extension))
        } else if !has_session {
            refuses(
                next,
                "transcode session "@ + play_session_id@ + " gone and segment "@
                    + request.segment_id@ + " not on disk"@,
            )
        } else {
            match requested_number(request) {
                Some(requested) => moves_to(
                    next,
                    SegmentStage::Transcode { requested },
                    SegmentAction::InspectTranscode,
                ),
                None => moves_to(
                    next,
                    SegmentStage::Waiting { waits: 0 },
                    SegmentAction::LookForSegment { furthest: None },
                ),
            }
        },
        (
            SegmentStage::Transcode { requested },
            SegmentEvent::Transcode { segment_length, state, encoder_runs, files },
        ) => if restarts(requested, event) {
            let ticks = restart_ticks(request.query, requested, segment_length);
            moves_to(
                next,
                SegmentStage::Waiting { waits: 0 },
                SegmentAction::Restart {
                    start_time_ticks: ticks,
                    start_time_secs: low_u32(whole_seconds(ticks)),
                },
            )
        } else {
            moves_to(
                next,
                SegmentStage::Waiting { waits: 0 },
                SegmentAction::LookForSegment { furthest: None },
            )
        },
        (
            SegmentStage::Waiting { waits },
            SegmentEvent::File { present, extension },
        ) => if present {
            serves(next, segment_type(extension))
        } else if waits < SEGMENT_WAITS {
            moves_to(
                next,
                SegmentStage::Waiting { waits: (waits + 1) as u32 },
                SegmentAction::Wait { millis: SEGMENT_WAIT_MILLIS },
            )
        } else {
            refuses(next, "segment "@ + request.segment_id@ + " not ready after timeout"@)
        },
        _ => moves_to(next, stage, SegmentAction::Ignore),
    }
}

fn refuse(text: String) -> (next: (SegmentStage, SegmentAction))
    ensures
        refuses(next, text@),
{
    (SegmentStage::Finished, SegmentAction::NotFound(text))
}

fn serve(content_type: &'static str) -> (next: (SegmentStage, SegmentAction))
    ensures
        serves(next, content_type@),
{
    (SegmentStage::Finished, SegmentAction::Serve { head: ReplyHead::segment(content_type) })
}

fn serve_segment(extension: Option<String>) -> (next: (SegmentStage, SegmentAction))
    ensures
        serves(next, segment_type(extension)),
{
    match extension {
        Some(e) => if same_text(e.as_str(), "m4s") {
            serve("video/mp4")
        } else {
            serve("video/mp2t")
        },
        None => serve("video/mp2t"),
    }
}

fn look_for(request: &SegmentRequest, play_session_id: String, furthest: Option<u32>) -> (next: (
    SegmentStage,
    SegmentAction,
))
    ensures
        found_step(*request, play_session_id, furthest, next),
{
    let has_session: bool = furthest.is_some();
    if same_text(request.segment_id.as_str(), "init") {
        return (SegmentStage::Init { has_session, waits: 0 }, SegmentAction::LookForInit);
    }
    let number: Option<u32> = read_segment_number(request.segment_id.as_str());
    let further: Option<u32> = match (furthest, number) {
        (Some(before), Some(n)) => if n > before {
            Some(n)
        } else {
            None
        },
        _ => None,
    };
    (
        SegmentStage::Segment { play_session_id, has_session },
        SegmentAction::LookForSegment { furthest: further },
    )
}

/// Serves a segment: from the stage of a request and what happened to the stage
/// that follows and what is to be done. A request starts at
/// [`SegmentStage::Start`].
pub fn hls_segment_inner(
    request: &SegmentRequest,
    stage: SegmentStage,
    event: SegmentEvent,
) -> (next: (SegmentStage, SegmentAction))
    requires
        numbers_fit(*request, stage, event),
    ensures
        segment_step(*request, stage, event, next),
{
    match (stage, event) {
        (SegmentStage::Start, SegmentEvent::Begin) => match &request.query.play_session_id {
            None => refuse("PlaySessionId is required".to_owned()),
            Some(id) => (
                SegmentStage::Session { play_session_id: id.clone() },
                SegmentAction::FindSession,
            ),
        },
        (SegmentStage::Session { play_session_id }, SegmentEvent::Session(furthest)) => look_for(
            request,
            play_session_id,
            furthest,
        ),
        (SegmentStage::Init { has_session, waits }, SegmentEvent::File { present, .. }) => {
            if present {
                serve("video/mp4")
            } else if has_session && waits < INIT_WAITS {
                (
                    SegmentStage::Init { has_session, waits: waits + 1 },
                    SegmentAction::Wait { millis: INIT_WAIT_MILLIS },
                )
            } else {
                refuse("fMP4 init segment not ready".to_owned())
            }
        },
        (
            SegmentStage::Segment { play_session_id, has_session },
            SegmentEvent::File { present, extension },
        ) => {
            if present {
                serve_segment(extension)
            } else if !has_session {
                let mut text: String = "transcode session ".to_owned();
                text.append(play_session_id.as_str());
                text.append(" gone and segment ");
                text.append(request.segment_id.as_str());
                text.append(" not on disk");
                refuse(text)
            } else {
                match read_segment_number(request.segment_id.as_str()) {
                    Some(requested) => (
                        SegmentStage::Transcode { requested },
                        SegmentAction::InspectTranscode,
                    ),
                    None => (
                        SegmentStage::Waiting { waits: 0 },
                        SegmentAction::LookForSegment { furthest: None },
                    ),
                }
            }
        },
        (
            SegmentStage::Transcode { requested },
            SegmentEvent::Transcode { segment_length, state, encoder_runs, files },
        ) => {
            let current: Option<u32> = get_current_transcoding_index(&files);
            if out_of_reach(requested, current, segment_length, state) && encoder_runs {
                let ticks: i64 = count_restart_ticks(&request.query, requested, segment_length);
                let seconds: i64 = count_seconds(ticks);
                let start_time_secs: u32 = #[verifier::truncate] (seconds as u32);
                (
                    SegmentStage::Waiting { waits: 0 },
                    SegmentAction::Restart { start_time_ticks: ticks, start_time_secs },
                )
            } else {
                (
                    SegmentStage::Waiting { waits: 0 },
                    SegmentAction::LookForSegment { furthest: None },
                )
            }
        },
        (SegmentStage::Waiting { waits }, SegmentEvent::File { present, extension }) => {
            if present {
                serve_segment(extension)
            } else if waits < SEGMENT_WAITS {
                (
                    SegmentStage::Waiting { waits: waits + 1 },
                    SegmentAction::Wait { millis: SEGMENT_WAIT_MILLIS },
                )
            } else {
                let mut text: String = "segment ".to_owned();
                text.append(request.segment_id.as_str());
                text.append(" not ready after timeout");
                refuse(text)
            }
        },
        (stage, _) => (stage, SegmentAction::Ignore),
    }
}

/// A request for a segment file beside the variant playlist's own directory.
pub fn hls_segment(segment_file: &str, query: HlsVideoQuery) -> (r: SegmentRequest)
    ensures
        r.segment_id@ == before_last(segment_file@, '.'),
        r.query == query,
{
    SegmentRequest { segment_id: strip_segment_extension(segment_file), query }
}

/// A request for a segment file beside the variant playlist.
pub fn hls_segment_flat(segment_file: &str, query: HlsVideoQuery) -> (r: SegmentRequest)
    ensures
        r.segment_id@ == before_last(segment_file@, '.'),
        r.query == query,
{
    SegmentRequest { segment_id: strip_segment_extension(segment_file), query }
}

/// A request for a segment file below the id of its playlist, which does not
/// matter.
pub fn hls1_segment(playlist_id: &str, segment_file: &str, query: HlsVideoQuery) -> (r:
    SegmentRequest)
    ensures
        r.segment_id@ == before_last(segment_file@, '.'),
        r.query == query,
{
    SegmentRequest { segment_id: strip_segment_extension(segment_file), query }
}

// ---------------------------------------------------------------------------
// Laws
// ---------------------------------------------------------------------------

/// How long a request can still wait, in milliseconds.
pub open spec fn millis_left(stage: SegmentStage) -> int {
    match stage {
        SegmentStage::Init { waits, .. } => if waits < INIT_WAITS {
            (INIT_WAITS - waits) * INIT_WAIT_MILLIS
        } else {
            0
        },
        SegmentStage::Waiting { waits } => if waits < SEGMENT_WAITS {
            (SEGMENT_WAITS - waits) * SEGMENT_WAIT_MILLIS
        } else {
            0
        },
        SegmentStage::Finished => 0,
        _ => 60_000,
    }
}

/// How many events a request can still wait for.
pub open spec fn events_left(stage: SegmentStage) -> int {
    match stage {
        SegmentStage::Start => 126,
        SegmentStage::Session { .. } => 125,
        SegmentStage::Segment { .. } => 124,
        SegmentStage::Transcode { .. } => 123,
        SegmentStage::Init { waits, .. } => if waits < INIT_WAITS {
            INIT_WAITS - waits + 1
        } else {
            1
        },
        SegmentStage::Waiting { waits } => if waits < SEGMENT_WAITS {
            SEGMENT_WAITS - waits + 1
        } else {
            1
        },
        SegmentStage::Finished => 0,
    }
}

/// A request ends: every event that it waits for brings it nearer to its end. All
/// its waits together take no more than a minute, and for the first part of a
/// fragmented MP4 no more than ten seconds.
pub proof fn requests_wait_a_minute_at_most(
    request: SegmentRequest,
    stage: SegmentStage,
    event: SegmentEvent,
    next: (SegmentStage, SegmentAction),
)
    requires
        segment_step(request, stage, event, next),
    ensures
        next.1 is Ignore ==> next.0 == stage,
        next.1 !is Ignore ==> 0 <= events_left(next.0) < events_left(stage),
        millis_left(next.0) + (match next.1 {
            SegmentAction::Wait { millis } => millis as int,
            _ => 0int,
        }) <= millis_left(stage) <= 60_000,
        stage is Init ==> millis_left(stage) <= 10_000,
        next.1 !is Ignore ==> (next.0 is Finished <==> next.1 is Serve || next.1 is NotFound),
{
}

/// Only a file that is there is sent.
pub proof fn only_present_files_are_sent(
    request: SegmentRequest,
    stage: SegmentStage,
    event: SegmentEvent,
    next: (SegmentStage, SegmentAction),
)
    requires
        segment_step(request, stage, event, next),
    ensures
        next.1 is Serve ==> (event matches SegmentEvent::File { present, .. } && present),
        event matches SegmentEvent::File { present: true, .. } ==> next.1 is Serve
            || next.1 is Ignore,
{
}

/// The encoder is only started anew where one runs that can be ended, and only
/// for a transcode that is there and a segment that is not.
pub proof fn only_running_encoders_are_restarted(
    request: SegmentRequest,
    stage: SegmentStage,
    event: SegmentEvent,
    next: (SegmentStage, SegmentAction),
)
    requires
        segment_step(request, stage, event, next),
    ensures
        next.1 is Restart ==> stage is Transcode && (event matches SegmentEvent::Transcode {
            encoder_runs,
            ..
        } && encoder_runs),
        next.0 is Transcode && next.1 !is Ignore ==> (stage matches SegmentStage::Segment {
            has_session,
            ..
        } && has_session) && (event matches SegmentEvent::File { present, .. } && !present),
{
}

/// A segment shortly before the encoder is waited for, and so is the first one of
/// an encoder that has not written any.
pub proof fn near_segments_are_waited_for(
    requested: u32,
    current: Option<u32>,
    segment_length: u32,
    state: TranscodeState,
)
    requires
        segment_length > 0,
        match current {
            Some(cur) => cur <= requested && (requested - cur) * segment_length <= GAP_SECONDS,
            None => state == TranscodeState::Starting || state == TranscodeState::Running,
        },
    ensures
        !is_out_of_reach(requested, current, segment_length, state),
{
    if let Some(cur) = current {
        let gap = requested - cur;
        let length = segment_length as int;
        assert(gap <= GAP_SECONDS as int / length) by (nonlinear_arith)
            requires
                gap * length <= GAP_SECONDS as int,
                length > 0,
                gap >= 0,
        ;
    }
}

/// The encoder starts anew where the segment begins, if the client does not say
/// where that is.
pub proof fn restarts_begin_at_the_segment(query: HlsVideoQuery, requested: u32, length: u32)
    requires
        query.runtime_ticks is None,
        ticks_of_seconds(requested * length) is Some,
    ensures
        whole_seconds(restart_ticks(query, requested, length)) == requested * length,
        restart_ticks(query, requested, length) == requested * length * 10_000_000,
{
    assert(0 <= requested * length) by (nonlinear_arith);
    let seconds = requested * length;
    let ticks = restart_ticks(query, requested, length);
    assert(ticks == seconds * 10_000_000);
    assert(ticks as int / 10_000_000 == seconds);
}

/// The name of a segment file without its extension.
proof fn lemma_stem(file: Seq<char>, suffix: Seq<char>)
    requires
        finishes_with(file, suffix),
        suffix.len() > 0,
        suffix[0] == '.',
        forall|j: int| 1 <= j < suffix.len() ==> suffix[j] != '.',
    ensures
        before_last(file, '.') == file.take(file.len() - suffix.len()),
{
    let n = file.len() - suffix.len();
    let tail = file.subrange(n, file.len() as int);
    assert(tail =~= suffix);
    assert forall|j: int| n <= j < file.len() implies file[j] == suffix[j - n] by {
        assert(file[j] == tail[j - n]);
    }
    crate::text::last_position_is_last(file, '.');
}

/// A client asks for a segment file by the number under which the file counts:
/// the extension that a request drops is the one that the file is known by.
pub proof fn files_are_asked_for_by_their_number(file: Seq<char>)
    requires
        finishes_with(file, ".ts"@) || finishes_with(file, ".m4s"@),
    ensures
        segment_number(before_last(file, '.')) == file_number(file),
{
    reveal_strlit(".ts");
    reveal_strlit(".m4s");
    if finishes_with(file, ".ts"@) {
        lemma_stem(file, ".ts"@);
    } else {
        lemma_stem(file, ".m4s"@);
    }
}

/// Where the encoder is past a segment, or further before it than twenty-four
/// seconds of segments, the segment will not come, and nearer ones will. Where it
/// has written none, a segment comes unless the encoder has ended.
pub proof fn segments_far_from_the_encoder_do_not_come(
    requested: u32,
    current: Option<u32>,
    segment_length: u32,
    state: TranscodeState,
    r: bool,
)
    requires
        segment_length > 0,
        call_ensures(out_of_reach, (requested, current, segment_length, state), r),
    ensures
        current matches Some(cur) ==> requested < cur ==> r,
        current matches Some(cur) ==> requested >= cur ==> (r <==> (requested - cur)
            * segment_length > 24),
        current is None ==> (r <==> state == TranscodeState::Error || state
            == TranscodeState::Complete),
{
    if let Some(cur) = current {
        if requested >= cur {
            let gap = requested - cur;
            let length = segment_length as int;
            assert(gap > 24int / length <==> gap * length > 24) by (nonlinear_arith)
                requires
                    length > 0,
                    gap >= 0,
            ;
        }
    }
}

/// A running encoder is started anew for every segment that it has passed, for
/// every segment too far ahead of the newest, and for every segment once it has
/// ended without any. Otherwise the segment is waited for.
pub proof fn encoders_are_moved_to_what_is_asked_for(
    request: &SegmentRequest,
    requested: u32,
    segment_length: u32,
    state: TranscodeState,
    encoder_runs: bool,
    files: Vec<String>,
    next: (SegmentStage, SegmentAction),
)
    requires
        segment_length > 0,
        call_ensures(
            hls_segment_inner,
            (
                request,
                SegmentStage::Transcode { requested },
                SegmentEvent::Transcode { segment_length, state, encoder_runs, files },
            ),
            next,
        ),
    ensures
        next.0 == (SegmentStage::Waiting { waits: 0 }),
        !encoder_runs ==> next.1 == (SegmentAction::LookForSegment { furthest: None }),
        encoder_runs && (exists|k: int|
            0 <= k < files@.len() && (file_number(#[trigger] files@[k]@) matches Some(n) && requested
                < n)) ==> next.1 is Restart,
        encoder_runs && (exists|k: int|
            0 <= k < files@.len() && file_number(#[trigger] files@[k]@) is Some) && (forall|k: int|
            0 <= k < files@.len() ==> (file_number(#[trigger] files@[k]@) matches Some(n) ==> n
                <= requested && (requested - n) * segment_length > 24)) ==> next.1 is Restart,
        (forall|k: int|
            0 <= k < files@.len() ==> (file_number(#[trigger] files@[k]@) matches Some(n) ==> n
                <= requested)) && (exists|k: int|
            0 <= k < files@.len() && (file_number(#[trigger] files@[k]@) matches Some(n) && (
            requested - n) * segment_length <= 24)) ==> next.1 == (SegmentAction::LookForSegment {
            furthest: None,
        }),
        encoder_runs && (forall|k: int|
            0 <= k < files@.len() ==> file_number(#[trigger] files@[k]@) is None) ==> (
        next.1 is Restart <==> state == TranscodeState::Error || state
            == TranscodeState::Complete),
        next.1 is Restart || next.1 == (SegmentAction::LookForSegment { furthest: None }),
{
    let names = texts(files@);
    highest_number_is_highest(names);
    assert forall|k: int| 0 <= k < files@.len() implies names[k] == #[trigger] files@[k]@ by {}
    if let Some(cur) = highest_number(names) {
        let j = choose|j: int| 0 <= j < names.len() && file_number(#[trigger] names[j]) == Some(cur);
        assert(names[j] == files@[j]@);
        let length = segment_length as int;
        if requested >= cur {
            let gap = requested - cur;
            assert(gap > 24int / length <==> gap * length > 24) by (nonlinear_arith)
                requires
                    length > 0,
                    gap >= 0,
            ;
        }
        if exists|k: int|
            0 <= k < files@.len() && (file_number(#[trigger] files@[k]@) matches Some(n) && requested
                < n) {
            let k = choose|k: int|
                0 <= k < files@.len() && (file_number(#[trigger] files@[k]@) matches Some(n)
                    && requested < n);
            assert(names[k] == files@[k]@);
        }
        if exists|k: int|
            0 <= k < files@.len() && (file_number(#[trigger] files@[k]@) matches Some(n) && (
            requested - n) * segment_length <= 24) {
            let k = choose|k: int|
                0 <= k < files@.len() && (file_number(#[trigger] files@[k]@) matches Some(n) && (
                requested - n) * segment_length <= 24);
            assert(names[k] == files@[k]@);
            let n = file_number(files@[k]@)->0;
            assert((requested - cur) * segment_length <= (requested - n) * segment_length)
                by (nonlinear_arith)
                requires
                    n <= cur,
                    segment_length > 0,
            ;
        }
    } else {
        assert forall|k: int| 0 <= k < files@.len() implies file_number(
            #[trigger] files@[k]@,
        ) is None by {
            assert(names[k] == files@[k]@);
        }
    }
}

/// The encoder starts anew where the client says that the segment begins. Where it
/// does not say, that is the number of the segment times its length, and the
/// beginning where that cannot be counted in ticks. The seconds are the whole ones
/// of these ticks.
pub proof fn restarts_are_where_the_client_says(
    request: &SegmentRequest,
    requested: u32,
    segment_length: u32,
    state: TranscodeState,
    encoder_runs: bool,
    files: Vec<String>,
    next: (SegmentStage, SegmentAction),
)
    requires
        call_ensures(
            hls_segment_inner,
            (
                request,
                SegmentStage::Transcode { requested },
                SegmentEvent::Transcode { segment_length, state, encoder_runs, files },
            ),
            next,
        ),
    ensures
        next.1 matches SegmentAction::Restart { start_time_ticks, start_time_secs } ==> {
            &&& request.query.runtime_ticks matches Some(t) ==> start_time_ticks == t
            &&& request.query.runtime_ticks is None ==> start_time_ticks == (if requested
                * segment_length * 10_000_000 <= i64::MAX {
                requested * segment_length * 10_000_000
            } else {
                0
            })
            &&& start_time_ticks >= 0 ==> (start_time_ticks as int / 10_000_000 - start_time_secs)
                % 0x1_0000_0000 == 0
            &&& start_time_ticks < 0 ==> ((-(start_time_ticks as int)) / 10_000_000
                + start_time_secs) % 0x1_0000_0000 == 0
        },
{
    let ticks = restart_ticks(request.query, requested, segment_length);
    assert(0 <= requested * segment_length) by (nonlinear_arith);
    crate::transcode::low_halves_are_congruent(whole_seconds(ticks));
}

/// The number of a segment is what follows the last underscore of its name, or the
/// whole name where it has none.
pub proof fn segment_numbers_follow_the_last_underscore(name: &str, r: Option<u32>)
    requires
        call_ensures(read_segment_number, (name,), r),
    ensures
        !name@.contains('_') ==> r == u32_value(name@),
        forall|stem: Seq<char>, number: Seq<char>|
            !number.contains('_') && name@ == #[trigger] (stem + seq!['_'] + number) ==> r
                == u32_value(number),
{
    crate::text::last_position_is_last(name@, '_');
    if !name@.contains('_') {
        if let Some(i) = crate::text::last_position(name@, '_') {
            assert(name@[i] == '_');
        }
    }
    assert forall|stem: Seq<char>, number: Seq<char>|
        !number.contains('_') && name@ == #[trigger] (stem + seq!['_'] + number) implies r
        == u32_value(number) by {
        let n = stem.len() as int;
        assert(name@[n] == '_');
        assert forall|j: int| n < j < name@.len() implies name@[j] != '_' by {
            assert(name@[j] == number[j - n - 1]);
        }
        assert(name@.skip(n + 1) =~= number);
    }
}

/// Segment files end in `.ts` or `.m4s`. Such a file has the number of its name
/// without that ending, and no other file has one.
pub proof fn segment_files_have_the_number_of_their_name(name: Seq<char>, file: Seq<char>)
    ensures
        file_number(name + ".ts"@) == segment_number(name),
        file_number(name + ".m4s"@) == segment_number(name),
        !finishes_with(file, ".ts"@) && !finishes_with(file, ".m4s"@) ==> file_number(file) is None,
{
    reveal_strlit(".ts");
    reveal_strlit(".m4s");
    let a = name + ".ts"@;
    let b = name + ".m4s"@;
    assert(a.subrange(a.len() - 3, a.len() as int) =~= ".ts"@);
    assert(a.take(a.len() - 3) =~= name);
    assert(b.subrange(b.len() - 4, b.len() as int) =~= ".m4s"@);
    assert(b.take(b.len() - 4) =~= name);
    let c = b.subrange(b.len() - 3, b.len() as int);
    assert(c[0] == 'm');
    assert(".ts"@[0] == '.');
}

/// The furthest segment of a directory is one that is there, and none is further.
pub proof fn the_furthest_segment_is_there(files: &Vec<String>, r: Option<u32>)
    requires
        call_ensures(get_current_transcoding_index, (files,), r),
    ensures
        r matches Some(m) ==> exists|k: int|
            0 <= k < files@.len() && file_number(#[trigger] files@[k]@) == Some(m),
        forall|k: int|
            0 <= k < files@.len() ==> (file_number(#[trigger] files@[k]@) matches Some(n) ==> (
            r matches Some(m) && n <= m)),
{
    let names = texts(files@);
    highest_number_is_highest(names);
    assert forall|k: int| 0 <= k < files@.len() implies names[k] == #[trigger] files@[k]@ by {}
    if let Some(m) = r {
        let j = choose|j: int| 0 <= j < names.len() && file_number(#[trigger] names[j]) == Some(m);
        assert(file_number(files@[j]@) == Some(m));
    }
    assert forall|k: int| 0 <= k < files@.len() implies (file_number(
        #[trigger] files@[k]@,
    ) matches Some(n) ==> (r matches Some(m) && n <= m)) by {
        assert(names[k] == files@[k]@);
    }
}

/// An encoder that is started anew is told of the session what it was told before,
/// of the query the sizes and the bit rates, and that the source is not live.
pub proof fn restarts_keep_the_session(
    session: &TranscodeSession,
    query: &HlsVideoQuery,
    start_time_ticks: i64,
    options: &EncodingOptions,
    r: TranscodeParams,
)
    requires
        call_ensures(restart_params, (session, query, start_time_ticks, options), r),
    ensures
        r.input_url@ == session.input_url@,
        r.video_codec@ == session.video_codec@,
        r.audio_codec@ == session.audio_codec@,
        r.segment_length == session.segment_length,
        r.start_time_ticks == Some(start_time_ticks),
        r.audio_channels == (if session.audio_codec@ == "copy"@ {
            None
        } else {
            Some(2u32)
        }),
        r.audio_stream_index == session.audio_stream_index,
        r.subtitle_stream_index == session.subtitle_stream_index,
        r.burn_subtitle == session.burn_subtitle,
        r.source_video_codec == session.source_video_codec,
        r.source_audio_codec == session.source_audio_codec,
        r.source_video_range_type == session.source_video_range_type,
        !r.is_live,
        r.settings.are_of(*options),
        r.max_width is None <==> query.max_width is None,
        query.max_width matches Some(n) ==> (n - r.max_width->0) % 0x1_0000_0000 == 0,
        r.max_height is None <==> query.max_height is None,
        query.max_height matches Some(n) ==> (n - r.max_height->0) % 0x1_0000_0000 == 0,
        r.video_bitrate is None <==> query.video_bit_rate is None,
        query.video_bit_rate matches Some(n) ==> (n - r.video_bitrate->0) % 0x1_0000_0000 == 0,
        r.audio_bitrate is None <==> query.audio_bit_rate is None,
        query.audio_bit_rate matches Some(n) ==> (n - r.audio_bitrate->0) % 0x1_0000_0000 == 0,
{
    if let Some(n) = query.max_width {
        crate::transcode::low_halves_are_congruent(n);
    }
    if let Some(n) = query.max_height {
        crate::transcode::low_halves_are_congruent(n);
    }
    if let Some(n) = query.video_bit_rate {
        crate::transcode::low_halves_are_congruent(n);
    }
    if let Some(n) = query.audio_bit_rate {
        crate::transcode::low_halves_are_congruent(n);
    }
}

/// A request needs a play session, and looks for the transcode of that one. With or
/// without a transcode it then looks for its file. The furthest segment that was
/// asked for only ever moves ahead.
pub proof fn segment_requests_look_for_their_file(
    request: &SegmentRequest,
    stage: SegmentStage,
    event: SegmentEvent,
    next: (SegmentStage, SegmentAction),
)
    requires
        call_ensures(hls_segment_inner, (request, stage, event), next),
    ensures
        stage is Start && event is Begin ==> match request.query.play_session_id {
            None => next.0 is Finished && (next.1 matches SegmentAction::NotFound(t) && t@
                == "PlaySessionId is required"@),
            Some(id) => next.1 is FindSession && (next.0 matches SegmentStage::Session {
                play_session_id,
            } && play_session_id@ == id@),
        },
        stage matches SegmentStage::Session { play_session_id } ==> event
            matches SegmentEvent::Session(furthest) ==> {
            &&& request.segment_id@ == "init"@ ==> next.1 is LookForInit && next.0 == (
            SegmentStage::Init { has_session: furthest is Some, waits: 0 })
            &&& request.segment_id@ != "init"@ ==> (next.0 matches SegmentStage::Segment {
                play_session_id: kept,
                has_session,
            } && kept@ == play_session_id@ && has_session == furthest is Some) && (
            next.1 matches SegmentAction::LookForSegment { furthest: further } && {
                &&& further matches Some(n) ==> (furthest matches Some(before) && n > before)
                    && segment_number(request.segment_id@) == Some(n)
                &&& further is None ==> (furthest matches Some(before) ==> segment_number(
                    request.segment_id@,
                ) matches Some(n) ==> n <= before)
            })
        },
        next.1 is Ignore ==> next.0 == stage,
        next.1 is Ignore <==> !(stage is Start && event is Begin) && !(stage is Session
            && event is Session) && !((stage is Init || stage is Segment || stage is Waiting)
            && event is File) && !(stage is Transcode && event is Transcode),
{
}

/// A file that is there is sent, `.m4s` files and the first part of a fragmented
/// MP4 as MP4, and all others as MPEG-TS.
pub proof fn files_are_sent_as_what_they_are(
    request: &SegmentRequest,
    stage: SegmentStage,
    extension: Option<String>,
    next: (SegmentStage, SegmentAction),
)
    requires
        stage is Init || stage is Segment || stage is Waiting,
        call_ensures(
            hls_segment_inner,
            (request, stage, SegmentEvent::File { present: true, extension }),
            next,
        ),
    ensures
        next.0 is Finished,
        next.1 matches SegmentAction::Serve { head } && head.status == 200
            && head.allow_origin is None && (head.cache_control matches Some(c) && c@
            == "public, max-age=86400"@) && (head.content_type matches Some(t) && t@ == (
        if stage is Init || (extension matches Some(e) && e@ == "m4s"@) {
            "video/mp4"@
        } else {
            "video/mp2t"@
        })),
{
}

/// A file that is not there is waited for: the first part of a fragmented MP4 for
/// 40 times a quarter of a second, a segment for 120 times half a second, and
/// neither without a transcode. Then the request is refused.
pub proof fn missing_files_are_waited_for(
    request: &SegmentRequest,
    stage: SegmentStage,
    extension: Option<String>,
    next: (SegmentStage, SegmentAction),
)
    requires
        call_ensures(
            hls_segment_inner,
            (request, stage, SegmentEvent::File { present: false, extension }),
            next,
        ),
    ensures
        stage matches SegmentStage::Init { has_session, waits } ==> if has_session && waits < 40 {
            (next.0 matches SegmentStage::Init { has_session: still, waits: more } && still && more
                == waits + 1) && next.1 == (SegmentAction::Wait { millis: 250 })
        } else {
            next.0 is Finished && (next.1 matches SegmentAction::NotFound(t) && t@
                == "fMP4 init segment not ready"@)
        },
        stage matches SegmentStage::Segment { play_session_id, has_session } ==> if has_session {
            match segment_number(request.segment_id@) {
                Some(n) => next.0 == (SegmentStage::Transcode { requested: n })
                    && next.1 is InspectTranscode,
                None => next.0 == (SegmentStage::Waiting { waits: 0 }) && next.1 == (
                SegmentAction::LookForSegment { furthest: None }),
            }
        } else {
            next.0 is Finished && (next.1 matches SegmentAction::NotFound(t) && t@
                == "transcode session "@ + play_session_id@ + " gone and segment "@
                + request.segment_id@ + " not on disk"@)
        },
        stage matches SegmentStage::Waiting { waits } ==> if waits < 120 {
            (next.0 matches SegmentStage::Waiting { waits: more } && more == waits + 1) && next.1
                == (SegmentAction::Wait { millis: 500 })
        } else {
            next.0 is Finished && (next.1 matches SegmentAction::NotFound(t) && t@ == "segment "@
                + request.segment_id@ + " not ready after timeout"@)
        },
{
}

/// Under each of its three addresses a segment is asked for by the name of its file
/// without the extension, and with the query as it is.
pub proof fn segments_have_three_addresses(
    playlist_id: &str,
    file: &str,
    query: HlsVideoQuery,
    a: SegmentRequest,
    b: SegmentRequest,
    c: SegmentRequest,
)
    requires
        call_ensures(hls_segment, (file, query), a),
        call_ensures(hls_segment_flat, (file, query), b),
        call_ensures(hls1_segment, (playlist_id, file, query), c),
    ensures
        a.query == query && b.query == query && c.query == query,
        a.segment_id@ == b.segment_id@ && b.segment_id@ == c.segment_id@,
        !file@.contains('.') ==> a.segment_id@ == file@,
        forall|stem: Seq<char>, extension: Seq<char>|
            !extension.contains('.') && file@ == #[trigger] (stem + seq!['.'] + extension)
                ==> a.segment_id@ == stem,
{
    crate::text::last_position_is_last(file@, '.');
    if !file@.contains('.') {
        if let Some(i) = crate::text::last_position(file@, '.') {
            assert(file@[i] == '.');
        }
    }
    assert forall|stem: Seq<char>, extension: Seq<char>|
        !extension.contains('.') && file@ == #[trigger] (stem + seq!['.']
            + extension) implies a.segment_id@ == stem by {
        let n = stem.len() as int;
        assert(file@[n] == '.');
        assert forall|j: int| n < j < file@.len() implies file@[j] != '.' by {
            assert(file@[j] == extension[j - n - 1]);
        }
        assert(file@.take(n) =~= stem);
    }
}

/// The numbers of an event can be counted with exactly if its segments have a
/// length and a start that would have to be counted fits.
pub proof fn numbers_can_be_counted_with(
    request: &SegmentRequest,
    stage: &SegmentStage,
    event: &SegmentEvent,
    r: bool,
)
    requires
        call_ensures(check_numbers, (request, stage, event), r),
    ensures
        !(*event is Transcode) ==> r,
        *event matches SegmentEvent::Transcode { segment_length, state, encoder_runs, files } ==> {
            &&& segment_length == 0 ==> !r
            &&& segment_length > 0 && !(*stage is Transcode) ==> r
            &&& segment_length > 0 && request.query.runtime_ticks is Some ==> r
            &&& segment_length > 0 && !encoder_runs ==> r
            &&& *stage matches SegmentStage::Transcode { requested } ==> segment_length > 0 ==> (
            requested * segment_length <= i64::MAX ==> r)
            &&& *stage matches SegmentStage::Transcode { requested } ==> r ==> encoder_runs
                && request.query.runtime_ticks is None && is_out_of_reach(
                requested,
                highest_number(texts(files@)),
                segment_length,
                state,
            ) ==> requested * segment_length <= i64::MAX
        },
{
}

} // verus!
