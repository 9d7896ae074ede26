//! The endpoint that hands out one subtitle stream.

use vstd::prelude::*;

use crate::ids::MediaId;
use crate::media::Media;
use crate::media::MediaSourceInfo;
use crate::media::MediaStream;
use crate::media::StreamDescriptor;
use crate::media::SubtitleInfo;
use crate::ranking::external_order;
use crate::ranking::external_positions;
use crate::ranking::ints;
use crate::reply::ReplyHead;
use crate::subtitle_cache::bytes_to_text;
use crate::subtitle_cache::cache_file_name;
use crate::subtitle_cache::cache_is_good;
use crate::subtitle_cache::cache_name;
use crate::subtitle_cache::is_cached;
use crate::subtitle_cache::should_wait_for_batch;
use crate::subtitle_cache::text_of_bytes;
use crate::subtitle_index::external_place;
use crate::subtitle_index::find_external_place;
use crate::subtitle_index::find_highest_index;
use crate::subtitle_index::has_index;
use crate::subtitle_index::is_completed;
use crate::subtitle_index::map_spec_text;
use crate::subtitle_index::next_index;
use crate::subtitle_index::subtitle_map_spec;
use crate::subtitle_index::subtitle_ordinal;
use crate::text::ascii_lowered;
use crate::text::same_text;
use crate::text::to_ascii_lower;
use crate::text::push_text;
use crate::text::texts;

verus! {

// ---------------------------------------------------------------------------
// Formats
// ---------------------------------------------------------------------------

/// What becomes of SRT text before a client gets it.
#[derive(Clone, Copy, Debug, PartialEq, Eq, Structural)]
pub enum Conversion {
    Keep,
    WebVtt,
    Json,
}

/// The conversion and the content type for a subtitle from an addon, by the
/// lower-case format that the client asks for.
pub open spec fn external_format(format: Seq<char>) -> (Conversion, Seq<char>) {
    if format == "vtt"@ || format == "webvtt"@ {
        (Conversion::WebVtt, "text/vtt; charset=utf-8"@)
    } else if format == "js"@ {
        (Conversion::Json, "application/json"@)
    } else {
        (Conversion::Keep, "text/plain; charset=utf-8"@)
    }
}

/// What a subtitle of the file is handed out as.
#[derive(Clone, Copy, Debug, PartialEq, Eq, Structural)]
pub enum EmbeddedFormat {
    /// Text that is made of the SRT text in the cache.
    Text(Conversion),
    /// Advanced SubStation Alpha, which ffmpeg makes of the SRT text in the cache.
    Ass,
    /// Pictures in place of text, as they are in the file.
    Pictures,
}

/// What a subtitle of the file is handed out as and its content type, by the
/// lower-case format that the client asks for.
pub open spec fn embedded_format(format: Seq<char>) -> (EmbeddedFormat, Seq<char>) {
    if format == "vtt"@ || format == "webvtt"@ {
        (EmbeddedFormat::Text(Conversion::WebVtt), "text/vtt; charset=utf-8"@)
    } else if format == "js"@ || format == "json"@ {
        (EmbeddedFormat::Text(Conversion::Json), "application/json; charset=utf-8"@)
    } else if format == "ass"@ || format == "ssa"@ {
        (EmbeddedFormat::Ass, "text/plain; charset=utf-8"@)
    } else if format == "sup"@ || format == "pgssub"@ {
        (EmbeddedFormat::Pictures, "application/octet-stream"@)
    } else {
        (EmbeddedFormat::Text(Conversion::Keep), "text/plain; charset=utf-8"@)
    }
}

/// The conversion and the content type for a subtitle from an addon.
pub fn choose_external_format(format: &str) -> (r: (Conversion, &'static str))
    ensures
        (r.0, r.1@) == external_format(format@),
{
    if same_text(format, "vtt") || same_text(format, "webvtt") {
        (Conversion::WebVtt, "text/vtt; charset=utf-8")
    } else if same_text(format, "js") {
        (Conversion::Json, "application/json")
    } else {
        (Conversion::Keep, "text/plain; charset=utf-8")
    }
}

/// What a subtitle of the file is handed out as, and its content type.
pub fn choose_embedded_format(format: &str) -> (r: (EmbeddedFormat, &'static str))
    ensures
        (r.0, r.1@) == embedded_format(format@),
{
    if same_text(format, "vtt") || same_text(format, "webvtt") {
        (EmbeddedFormat::Text(Conversion::WebVtt), "text/vtt; charset=utf-8")
    } else if same_text(format, "js") || same_text(format, "json") {
        (EmbeddedFormat::Text(Conversion::Json), "application/json; charset=utf-8")
    } else if same_text(format, "ass") || same_text(format, "ssa") {
        (EmbeddedFormat::Ass, "text/plain; charset=utf-8")
    } else if same_text(format, "sup") || same_text(format, "pgssub") {
        (EmbeddedFormat::Pictures, "application/octet-stream")
    } else {
        (EmbeddedFormat::Text(Conversion::Keep), "text/plain; charset=utf-8")
    }
}

/// The arguments of an ffmpeg run that writes a subtitle stream as it is to its
/// output.
pub open spec fn binary_args(input: Seq<char>, map_spec: Seq<char>, format: Seq<char>) -> Seq<
    Seq<char>,
> {
    seq![
        "-copyts"@,
        "-i"@,
        input,
        "-map"@,
        map_spec,
        "-an"@,
        "-vn"@,
        "-c:s"@,
        "copy"@,
        "-f"@,
        format,
        "-"@,
    ]
}

fn write_binary_args(input: &str, map_spec: &str, format: &str) -> (r: Vec<String>)
    ensures
        texts(r@) == binary_args(input@, map_spec@, format@),
{
    let mut args: Vec<String> = Vec::new();
    assert(texts(args@) =~= Seq::<Seq<char>>::empty());
    push_text(&mut args, "-copyts");
    push_text(&mut args, "-i");
    push_text(&mut args, input);
    push_text(&mut args, "-map");
    push_text(&mut args, map_spec);
    push_text(&mut args, "-an");
    push_text(&mut args, "-vn");
    push_text(&mut args, "-c:s");
    push_text(&mut args, "copy");
    push_text(&mut args, "-f");
    push_text(&mut args, format);
    push_text(&mut args, "-");
    assert(texts(args@) =~= binary_args(input@, map_spec@, format@));
    args
}

/// The arguments of an ffmpeg run that turns SRT text on its input into Advanced
/// SubStation Alpha on its output.
pub open spec fn ass_args() -> Seq<Seq<char>> {
    seq!["-f"@, "srt"@, "-i"@, "-"@, "-c:s"@, "ass"@, "-f"@, "ass"@, "-"@]
}

fn write_ass_args() -> (r: Vec<String>)
    ensures
        texts(r@) == ass_args(),
{
    let mut args: Vec<String> = Vec::new();
    assert(texts(args@) =~= Seq::<Seq<char>>::empty());
    push_text(&mut args, "-f");
    push_text(&mut args, "srt");
    push_text(&mut args, "-i");
    push_text(&mut args, "-");
    push_text(&mut args, "-c:s");
    push_text(&mut args, "ass");
    push_text(&mut args, "-f");
    push_text(&mut args, "ass");
    push_text(&mut args, "-");
    assert(texts(args@) =~= ass_args());
    args
}

/// The address of an external subtitle as clients get it: its descriptor as JSON
/// text. `json` is that text, `None` where the descriptor cannot be written.
pub fn descriptor_to_subtitle_url(sub: &SubtitleInfo, json: Option<String>) -> (r: String)
    ensures
        r@ == (match (sub.url, json) {
            (Some(_), Some(text)) => text@,
            _ => Seq::empty(),
        }),
{
    match (&sub.url, json) {
        (Some(_), Some(text)) => text,
        _ => {
            let r: String = String::new();
            assert(r@ =~= Seq::<char>::empty());
            r
        },
    }
}

// ---------------------------------------------------------------------------
// The endpoint
// ---------------------------------------------------------------------------

/// A request for a subtitle stream.
#[derive(Debug)]
pub struct SubtitleRequest {
    pub item_id: MediaId,
    pub media_source_id: MediaId,
    pub stream_index: i64,
    /// The format, as the client writes it.
    pub format: String,
}

/// What a request waits for.
#[derive(Debug)]
pub enum SubtitleStage {
    Item,
    Source,
    /// The external subtitles, of which the one at `place` is asked for.
    Subtitles { place: usize },
    ExternalBytes,
    Stream,
    BinaryRun,
    Cache { input_url: String, map_spec: String },
    Batch { input_url: String, map_spec: String },
    Extraction,
    CachedText,
    AssRun,
    Finished,
}

/// How an ffmpeg run that writes to its output ended.
#[derive(Debug)]
pub enum OutputOutcome {
    TimedOut,
    /// It could not be started; the reason.
    NotStarted(String),
    Exited { success: bool, stdout: Vec<u8> },
}

/// Why an external subtitle could not be had.
#[derive(Debug)]
pub enum ServeError {
    NoAddon,
    NoStreamCapability,
    /// The source refused; the reason.
    Refused(String),
    /// Its bytes could not be read; the reason.
    Unreadable(String),
}

/// What happened to a request.
#[derive(Debug)]
pub enum SubtitleEvent<'a> {
    /// Whether the item is known.
    Item(bool),
    /// The stream that the item and the source lead to, if they lead to one.
    Source(Option<&'a Media>),
    /// The subtitles that addons offer, the preferred languages, and the name and
    /// the path of the source.
    Subtitles {
        subs: &'a Vec<SubtitleInfo>,
        langs: &'a Vec<String>,
        name: &'a Option<String>,
        path: &'a Option<String>,
    },
    ExternalBytes(Result<Vec<u8>, ServeError>),
    /// The stream whose subtitle is asked for.
    Stream(&'a Media),
    /// A run of ffmpeg that writes to its output ended.
    Output(OutputOutcome),
    /// What the cache file holds, and what a batch extraction of the item says of
    /// itself; `None` where there is no such file or no batch.
    Cache { content: Option<Vec<u8>>, batch_done: Option<bool> },
    /// The batch is done, or has been waited for long enough.
    BatchWaited,
    /// Whether the subtitle is in the cache now.
    Extraction(bool),
    CachedText(Result<Vec<u8>, String>),
}

/// What a client gets.
#[derive(Debug)]
pub enum SubtitleBody {
    /// SRT text, to be converted first.
    Srt { text: String, conversion: Conversion },
    Bytes(Vec<u8>),
    Note(&'static str),
}

/// What a request asks for next.
#[derive(Debug)]
pub enum SubtitleAction {
    /// Look for the stream that the item and the source lead to.
    FindSource,
    /// Ask the addons for subtitles.
    FetchSubtitles,
    /// Read the external subtitle at `position`, through an addon if it names one.
    ReadExternal { position: usize, addon: Option<MediaId> },
    /// Look for the stream again; where there is none, its error is the reply.
    FindStream,
    /// Run ffmpeg with these arguments and take its output.
    RunBinary(Vec<String>),
    /// Look at the cache file of this name and for a batch extraction.
    LookAtCache { file_name: String },
    WaitForBatch,
    /// Extract into the cache file of this name.
    Extract { input_url: String, map_spec: String, file_name: String },
    ReadCache,
    /// Run ffmpeg with these arguments on this input and take its output.
    ConvertToAss { args: Vec<String>, input: String },
    Reply { head: ReplyHead, body: SubtitleBody },
    /// The subtitle does not exist.
    NotFound(&'static str),
    /// The request fails.
    Fail(String),
    /// The event is not the one that was waited for: nothing is to be done.
    Ignore,
}

/// The streams of a file that an earlier probe found.
pub open spec fn probed_streams(media: Media) -> Seq<MediaStream> {
    match media.probe_data {
        Some(probe) => probe.media_streams@,
        None => Seq::empty(),
    }
}

/// The indices in an event are small enough to count on from them.
pub open spec fn indices_fit(request: SubtitleRequest, event: SubtitleEvent) -> bool {
    event matches SubtitleEvent::Source(Some(media)) ==> {
        let next = next_index(probed_streams(*media));
        next <= i64::MAX && i64::MIN <= request.stream_index - next <= i64::MAX
    }
}

/// Whether the indices in an event are small enough to count on from them.
pub fn check_indices(request: &SubtitleRequest, event: &SubtitleEvent) -> (r: bool)
    ensures
        r == indices_fit(*request, *event),
{
    match event {
        SubtitleEvent::Source(Some(media)) => {
            let highest: Option<i64> = match &media.probe_data {
                Some(probe) => find_highest_index(&probe.media_streams),
                None => None,
            };
            let next: i128 = match highest {
                Some(m) => m as i128 + 1,
                None => 0,
            };
            let place: i128 = request.stream_index as i128 - next;
            next <= i64::MAX as i128 && i64::MIN as i128 <= place && place <= i64::MAX as i128
        },
        _ => true,
    }
}

/// A refusal with this text.
pub open spec fn not_found_with(action: SubtitleAction, text: Seq<char>) -> bool {
    action matches SubtitleAction::NotFound(t) && t@ == text
}

/// A failure with this text.
pub open spec fn fails_with(action: SubtitleAction, text: Seq<char>) -> bool {
    action matches SubtitleAction::Fail(t) && t@ == text
}

/// The reply that an ffmpeg run went wrong.
pub open spec fn replies_failure(action: SubtitleAction) -> bool {
    action matches SubtitleAction::Reply { head, body: SubtitleBody::Note(note) } && head.is_bare(
        500,
        None,
    ) && note@ == "subtitle extraction failed"@
}

/// A reply with subtitle text.
pub open spec fn replies_text(
    action: SubtitleAction,
    bytes: Seq<u8>,
    format: (Conversion, Seq<char>),
) -> bool {
    action matches SubtitleAction::Reply { head, body: SubtitleBody::Srt { text, conversion } }
        && head.is_subtitle(format.1) && conversion == format.0 && text@ == text_of_bytes(bytes)
}

/// The addon through which an address is read.
pub open spec fn addon_of(descriptor: StreamDescriptor) -> Option<MediaId> {
    match descriptor {
        StreamDescriptor::Opendal { addon_id, .. } => Some(addon_id),
        _ => None,
    }
}

/// The position of an external subtitle that has an address, by its place among
/// the preferred ones.
pub open spec fn external_at(
    subs: Seq<SubtitleInfo>,
    langs: Seq<String>,
    name: Option<String>,
    path: Option<String>,
    place: int,
) -> Option<int> {
    let positions = external_positions(subs, langs, name, path);
    if place < positions.len() && subs[positions[place]].url is Some {
        Some(positions[place])
    } else {
        None
    }
}

/// The request moves on to this stage with this action.
pub open spec fn moves_to(
    next: (SubtitleStage, SubtitleAction),
    stage: SubtitleStage,
    action: SubtitleAction,
) -> bool {
    next.0 == stage && next.1 == action
}

/// What a stream leads to: refusals where it has no address or no such subtitle,
/// an ffmpeg run for a format of pictures, else the cache.
pub open spec fn stream_step(
    request: SubtitleRequest,
    media: Media,
    next: (SubtitleStage, SubtitleAction),
) -> bool {
    let format = ascii_lowered(request.format@);
    match media.stream_info {
        None => next.0 is Finished && not_found_with(next.1, "media source has no URL"@),
        Some(info) => match subtitle_ordinal(probed_streams(media), request.stream_index) {
            None => next.0 is Finished && not_found_with(next.1, "subtitle stream not found"@),
            Some(n) => if embedded_format(format).0 is Pictures {
                &&& next.0 is BinaryRun
                &&& next.1 matches SubtitleAction::RunBinary(args) && texts(args@) == binary_args(
                    info.server_input@,
                    map_spec_text(n),
                    format,
                )
            } else {
                &&& next.0 matches SubtitleStage::Cache { input_url, map_spec } && input_url@
                    == info.server_input@ && map_spec@ == map_spec_text(n)
                &&& next.1 matches SubtitleAction::LookAtCache { file_name } && file_name@
                    == cache_name(request.item_id, request.stream_index as int)
            },
        },
    }
}

/// The extraction of a subtitle into its cache file.
pub open spec fn extracts(
    request: SubtitleRequest,
    input: String,
    map: String,
    next: (SubtitleStage, SubtitleAction),
) -> bool {
    &&& next.0 is Extraction
    &&& next.1 matches SubtitleAction::Extract { input_url, map_spec, file_name } && input_url
        == input && map_spec == map && file_name@ == cache_name(
        request.item_id,
        request.stream_index as int,
    )
}

/// What the text in the cache leads to: a reply, or an ffmpeg run for a format
/// that only ffmpeg writes.
pub open spec fn cached_step(
    request: SubtitleRequest,
    bytes: Seq<u8>,
    next: (SubtitleStage, SubtitleAction),
) -> bool {
    let format = embedded_format(ascii_lowered(request.format@));
    match format.0 {
        EmbeddedFormat::Ass => {
            &&& next.0 is AssRun
            &&& next.1 matches SubtitleAction::ConvertToAss { args, input } && texts(args@)
                == ass_args() && input@ == text_of_bytes(bytes)
        },
        EmbeddedFormat::Text(conversion) => {
            &&& next.0 is Finished
            &&& replies_text(next.1, bytes, (conversion, format.1))
        },
        EmbeddedFormat::Pictures => {
            &&& next.0 is Finished
            &&& replies_text(next.1, bytes, (Conversion::Keep, format.1))
        },
    }
}

/// How a request goes on after what it waited for has happened. An external
/// subtitle comes first; a request whose index means none, or whose subtitle has
/// no address, is for a subtitle of the file.
pub open spec fn subtitle_step(
    request: SubtitleRequest,
    stage: SubtitleStage,
    event: SubtitleEvent,
    next: (SubtitleStage, SubtitleAction),
) -> bool {
    let format = ascii_lowered(request.format@);
    match (stage, event) {
        (SubtitleStage::Item, SubtitleEvent::Item(known)) => if known {
            moves_to(next, SubtitleStage::Source, SubtitleAction::FindSource)
        } else {
            moves_to(next, SubtitleStage::Stream, SubtitleAction::FindStream)
        },
        (SubtitleStage::Source, SubtitleEvent::Source(found)) => match found {
            Some(media) => match external_place(probed_streams(*media), request.stream_index) {
                Some(place) => moves_to(
                    next,
                    SubtitleStage::Subtitles { place },
                    SubtitleAction::FetchSubtitles,
                ),
                None => moves_to(next, SubtitleStage::Stream, SubtitleAction::FindStream),
            },
            None => moves_to(next, SubtitleStage::Stream, SubtitleAction::FindStream),
        },
        (
            SubtitleStage::Subtitles { place },
            SubtitleEvent::Subtitles { subs, langs, name, path },
        ) => match external_at(subs@, langs@, *name, *path, place as int) {
            Some(at) => {
                &&& next.0 is ExternalBytes
                &&& next.1 matches SubtitleAction::ReadExternal { position, addon } && position
                    == at && addon == addon_of(subs@[at].url->0)
            },
            None => moves_to(next, SubtitleStage::Stream, SubtitleAction::FindStream),
        },
        (SubtitleStage::ExternalBytes, SubtitleEvent::ExternalBytes(read)) => {
            &&& next.0 is Finished
            &&& match read {
                Ok(bytes) => replies_text(next.1, bytes@, external_format(format)),
                Err(ServeError::NoAddon) => fails_with(next.1, "addon not found for subtitle"@),
                Err(ServeError::NoStreamCapability) => fails_with(
                    next.1,
                    "addon has no stream capability"@,
                ),
                Err(ServeError::Refused(e)) => fails_with(next.1, e@),
                Err(ServeError::Unreadable(e)) => fails_with(
                    next.1,
                    "read subtitle bytes: "@ + e@,
                ),
            }
        },
        (SubtitleStage::Stream, SubtitleEvent::Stream(media)) => stream_step(
            request,
            *media,
            next,
        ),
        (SubtitleStage::BinaryRun, SubtitleEvent::Output(outcome)) => {
            &&& next.0 is Finished
            &&& match outcome {
                OutputOutcome::TimedOut => fails_with(next.1, "subtitle extraction timed out"@),
                OutputOutcome::NotStarted(e) => fails_with(next.1, "failed to run ffmpeg: "@ + e@),
                OutputOutcome::Exited { success: false, .. } => replies_failure(next.1),
                OutputOutcome::Exited { success: true, stdout } => {
                    next.1 matches SubtitleAction::Reply { head, body: SubtitleBody::Bytes(bytes) }
                        && bytes == stdout && crate::reply::says(
                        head.content_type,
                        embedded_format(format).1,
                    ) && head.is_bare(200, head.content_type)
                },
            }
        },
        (
            SubtitleStage::Cache { input_url, map_spec },
            SubtitleEvent::Cache { content, batch_done },
        ) => if !is_cached(content) && batch_done == Some(false) {
            moves_to(
                next,
                SubtitleStage::Batch { input_url, map_spec },
                SubtitleAction::WaitForBatch,
            )
        } else {
            extracts(request, input_url, map_spec, next)
        },
        (SubtitleStage::Batch { input_url, map_spec }, SubtitleEvent::BatchWaited) => extracts(
            request,
            input_url,
            map_spec,
            next,
        ),
        (SubtitleStage::Extraction, SubtitleEvent::Extraction(ready)) => if ready {
            moves_to(next, SubtitleStage::CachedText, SubtitleAction::ReadCache)
        } else {
            next.0 is Finished && replies_failure(next.1)
        },
        (SubtitleStage::CachedText, SubtitleEvent::CachedText(read)) => match read {
            Ok(bytes) => cached_step(request, bytes@, next),
            Err(e) => next.0 is Finished && fails_with(
                next.1,
                "failed to read cached subtitle: "@ + e@,
            ),
        },
        (SubtitleStage::AssRun, SubtitleEvent::Output(outcome)) => {
            &&& next.0 is Finished
            &&& match outcome {
                OutputOutcome::Exited { success: true, stdout } => {
                    next.1 matches SubtitleAction::Reply { head, body: SubtitleBody::Bytes(bytes) }
                        && bytes == stdout && head.is_subtitle(embedded_format(format).1)
                },
                _ => replies_failure(next.1),
            }
        },
        _ => moves_to(next, stage, SubtitleAction::Ignore),
    }
}

fn fail(message: &str, detail: &str) -> (r: SubtitleAction)
    ensures
        fails_with(r, message@ + detail@),
{
    let mut text: String = message.to_owned();
    text.append(detail);
    SubtitleAction::Fail(text)
}

fn reply_failure() -> (r: SubtitleAction)
    ensures
        replies_failure(r),
{
    SubtitleAction::Reply {
        head: ReplyHead::bare(500, None),
        body: SubtitleBody::Note("subtitle extraction failed"),
    }
}

fn reply_text(bytes: &Vec<u8>, format: (Conversion, &'static str)) -> (r: SubtitleAction)
    ensures
        replies_text(r, bytes@, (format.0, format.1@)),
{
    SubtitleAction::Reply {
        head: ReplyHead::subtitle(format.1),
        body: SubtitleBody::Srt { text: bytes_to_text(bytes), conversion: format.0 },
    }
}

fn place_in(media: &Media, index: i64) -> (r: Option<usize>)
    requires
        next_index(probed_streams(*media)) <= i64::MAX,
        i64::MIN <= index - next_index(probed_streams(*media)) <= i64::MAX,
    ensures
        r == external_place(probed_streams(*media), index),
{
    match &media.probe_data {
        Some(probe) => find_external_place(&probe.media_streams, index),
        None => {
            let none: Vec<MediaStream> = Vec::new();
            assert(none@ =~= Seq::<MediaStream>::empty());
            find_external_place(&none, index)
        },
    }
}

fn map_spec_in(media: &Media, index: i64) -> (r: Option<String>)
    ensures
        match r {
            Some(s) => subtitle_ordinal(probed_streams(*media), index) matches Some(n) && s@
                == map_spec_text(n),
            None => subtitle_ordinal(probed_streams(*media), index) is None,
        },
{
    match &media.probe_data {
        Some(probe) => subtitle_map_spec(&probe.media_streams, index),
        None => None,
    }
}

fn read_external(
    subs: &Vec<SubtitleInfo>,
    langs: &Vec<String>,
    name: &Option<String>,
    path: &Option<String>,
    place: usize,
) -> (r: Option<(usize, Option<MediaId>)>)
    ensures
        match external_at(subs@, langs@, *name, *path, place as int) {
            Some(at) => r matches Some((position, addon)) && position == at && addon == addon_of(
                subs@[at].url->0,
            ),
            None => r is None,
        },
{
    let order: Vec<usize> = external_order(subs, langs, name, path);
    assert(ints(order@) == external_positions(subs@, langs@, *name, *path));
    if place >= order.len() {
        return None;
    }
    let position: usize = order[place];
    assert(ints(order@)[place as int] == position);
    match &subs[position].url {
        Some(StreamDescriptor::Opendal { addon_id, .. }) => Some((position, Some(*addon_id))),
        Some(_) => Some((position, None)),
        None => None,
    }
}

fn start_stream(request: &SubtitleRequest, media: &Media) -> (next: (SubtitleStage, SubtitleAction))
    ensures
        stream_step(*request, *media, next),
{
    let info = match &media.stream_info {
        Some(info) => info,
        None => {
            return (SubtitleStage::Finished, SubtitleAction::NotFound("media source has no URL"));
        },
    };
    let map_spec: String = match map_spec_in(media, request.stream_index) {
        Some(map_spec) => map_spec,
        None => {
            return (SubtitleStage::Finished, SubtitleAction::NotFound("subtitle stream not found"));
        },
    };
    let format: String = to_ascii_lower(request.format.as_str());
    let pictures: bool = match choose_embedded_format(format.as_str()).0 {
        EmbeddedFormat::Pictures => true,
        _ => false,
    };
    if pictures {
        let args: Vec<String> = write_binary_args(
            info.server_input.as_str(),
            map_spec.as_str(),
            format.as_str(),
        );
        (SubtitleStage::BinaryRun, SubtitleAction::RunBinary(args))
    } else {
        (
            SubtitleStage::Cache { input_url: info.server_input.clone(), map_spec },
            SubtitleAction::LookAtCache {
                file_name: cache_file_name(request.item_id, request.stream_index),
            },
        )
    }
}

fn extract(request: &SubtitleRequest, input_url: String, map_spec: String) -> (next: (
    SubtitleStage,
    SubtitleAction,
))
    ensures
        extracts(*request, input_url, map_spec, next),
{
    (
        SubtitleStage::Extraction,
        SubtitleAction::Extract {
            input_url,
            map_spec,
            file_name: cache_file_name(request.item_id, request.stream_index),
        },
    )
}

fn use_cached(request: &SubtitleRequest, bytes: &Vec<u8>) -> (next: (SubtitleStage, SubtitleAction))
    ensures
        cached_step(*request, bytes@, next),
{
    let format: String = to_ascii_lower(request.format.as_str());
    let chosen: (EmbeddedFormat, &'static str) = choose_embedded_format(format.as_str());
    match chosen.0 {
        EmbeddedFormat::Ass => (
            SubtitleStage::AssRun,
            SubtitleAction::ConvertToAss { args: write_ass_args(), input: bytes_to_text(bytes) },
        ),
        EmbeddedFormat::Text(conversion) => (
            SubtitleStage::Finished,
            reply_text(bytes, (conversion, chosen.1)),
        ),
        EmbeddedFormat::Pictures => (
            SubtitleStage::Finished,
            reply_text(bytes, (Conversion::Keep, chosen.1)),
        ),
    }
}

/// Serves a subtitle: from the stage of a request and what happened to the stage
/// that follows and what is to be done. A request starts at
/// [`SubtitleStage::Item`].
pub fn subtitles_stream(
    request: &SubtitleRequest,
    stage: SubtitleStage,
    event: SubtitleEvent,
) -> (next: (SubtitleStage, SubtitleAction))
    requires
        indices_fit(*request, event),
    ensures
        subtitle_step(*request, stage, event, next),
{
    match (stage, event) {
        (SubtitleStage::Item, SubtitleEvent::Item(known)) => {
            if known {
                (SubtitleStage::Source, SubtitleAction::FindSource)
            } else {
                (SubtitleStage::Stream, SubtitleAction::FindStream)
            }
        },
        (SubtitleStage::Source, SubtitleEvent::Source(found)) => {
            let place: Option<usize> = match found {
                Some(media) => place_in(media, request.stream_index),
                None => None,
            };
            match place {
                Some(place) => (
                    SubtitleStage::Subtitles { place },
                    SubtitleAction::FetchSubtitles,
                ),
                None => (SubtitleStage::Stream, SubtitleAction::FindStream),
            }
        },
        (
            SubtitleStage::Subtitles { place },
            SubtitleEvent::Subtitles { subs, langs, name, path },
        ) => {
            match read_external(subs, langs, name, path, place) {
                Some((position, addon)) => (
                    SubtitleStage::ExternalBytes,
                    SubtitleAction::ReadExternal { position, addon },
                ),
                None => (SubtitleStage::Stream, SubtitleAction::FindStream),
            }
        },
        (SubtitleStage::ExternalBytes, SubtitleEvent::ExternalBytes(read)) => {
            let action: SubtitleAction = match read {
                Ok(bytes) => {
                    let format: String = to_ascii_lower(request.format.as_str());
                    reply_text(&bytes, choose_external_format(format.as_str()))
                },
                Err(ServeError::NoAddon) => SubtitleAction::Fail(
                    "addon not found for subtitle".to_owned(),
                ),
                Err(ServeError::NoStreamCapability) => SubtitleAction::Fail(
                    "addon has no stream capability".to_owned(),
                ),
                Err(ServeError::Refused(e)) => SubtitleAction::Fail(e),
                Err(ServeError::Unreadable(e)) => fail("read subtitle bytes: ", e.as_str()),
            };
            (SubtitleStage::Finished, action)
        },
        (SubtitleStage::Stream, SubtitleEvent::Stream(media)) => start_stream(request, media),
        (SubtitleStage::BinaryRun, SubtitleEvent::Output(outcome)) => {
            let action: SubtitleAction = match outcome {
                OutputOutcome::TimedOut => SubtitleAction::Fail(
                    "subtitle extraction timed out".to_owned(),
                ),
                OutputOutcome::NotStarted(e) => fail("failed to run ffmpeg: ", e.as_str()),
                OutputOutcome::Exited { success, stdout } => {
                    if success {
                        let format: String = to_ascii_lower(request.format.as_str());
                        let chosen = choose_embedded_format(format.as_str());
                        SubtitleAction::Reply {
                            head: ReplyHead::bare(200, Some(chosen.1)),
                            body: SubtitleBody::Bytes(stdout),
                        }
                    } else {
                        reply_failure()
                    }
                },
            };
            (SubtitleStage::Finished, action)
        },
        (
            SubtitleStage::Cache { input_url, map_spec },
            SubtitleEvent::Cache { content, batch_done },
        ) => {
            if should_wait_for_batch(cache_is_good(&content), batch_done) {
                (SubtitleStage::Batch { input_url, map_spec }, SubtitleAction::WaitForBatch)
            } else {
                extract(request, input_url, map_spec)
            }
        },
        (SubtitleStage::Batch { input_url, map_spec }, SubtitleEvent::BatchWaited) => extract(
            request,
            input_url,
            map_spec,
        ),
        (SubtitleStage::Extraction, SubtitleEvent::Extraction(ready)) => {
            if ready {
                (SubtitleStage::CachedText, SubtitleAction::ReadCache)
            } else {
                (SubtitleStage::Finished, reply_failure())
            }
        },
        (SubtitleStage::CachedText, SubtitleEvent::CachedText(read)) => match read {
            Ok(bytes) => use_cached(request, &bytes),
            Err(e) => (
                SubtitleStage::Finished,
                fail("failed to read cached subtitle: ", e.as_str()),
            ),
        },
        (SubtitleStage::AssRun, SubtitleEvent::Output(outcome)) => {
            let action: SubtitleAction = match outcome {
                OutputOutcome::Exited { success, stdout } => {
                    if success {
                        let format: String = to_ascii_lower(request.format.as_str());
                        let chosen = choose_embedded_format(format.as_str());
                        SubtitleAction::Reply {
                            head: ReplyHead::subtitle(chosen.1),
                            body: SubtitleBody::Bytes(stdout),
                        }
                    } else {
                        reply_failure()
                    }
                },
                _ => reply_failure(),
            };
            (SubtitleStage::Finished, action)
        },
        (stage, _) => (stage, SubtitleAction::Ignore),
    }
}

// ---------------------------------------------------------------------------
// Laws
// ---------------------------------------------------------------------------

/// How many events a request can still wait for.
pub open spec fn events_left(stage: SubtitleStage) -> nat {
    match stage {
        SubtitleStage::Item => 9,
        SubtitleStage::Source => 8,
        SubtitleStage::Subtitles { .. } => 7,
        SubtitleStage::Stream => 6,
        SubtitleStage::Cache { .. } => 5,
        SubtitleStage::Batch { .. } => 4,
        SubtitleStage::Extraction => 3,
        SubtitleStage::CachedText => 2,
        SubtitleStage::AssRun => 1,
        SubtitleStage::ExternalBytes => 1,
        SubtitleStage::BinaryRun => 1,
        SubtitleStage::Finished => 0,
    }
}

/// Every event that a request waits for brings it nearer to its end, and it ends
/// with a reply, a refusal or a failure.
pub proof fn requests_end(
    request: SubtitleRequest,
    stage: SubtitleStage,
    event: SubtitleEvent,
    next: (SubtitleStage, SubtitleAction),
)
    requires
        subtitle_step(request, stage, event, next),
    ensures
        next.1 is Ignore ==> next.0 == stage,
        next.1 !is Ignore ==> events_left(next.0) < events_left(stage),
        next.1 !is Ignore ==> (next.0 is Finished <==> next.1 is Reply || next.1 is NotFound
            || next.1 is Fail),
{
}

/// A subtitle put beside a source is the one that is read when a client asks for
/// its index.
pub proof fn injected_subtitles_are_served(
    request: SubtitleRequest,
    media: Media,
    before: MediaSourceInfo,
    after: MediaSourceInfo,
    subs: Vec<SubtitleInfo>,
    converted: Seq<MediaStream>,
    item_id: MediaId,
    api_key: Seq<char>,
    langs: Vec<String>,
    k: usize,
    fetch: (SubtitleStage, SubtitleAction),
    read: (SubtitleStage, SubtitleAction),
)
    requires
        is_completed(before, after, subs@, converted, item_id, api_key, langs@),
        k < external_positions(subs@, langs@, before.name, before.path).len(),
        subs@[external_positions(subs@, langs@, before.name, before.path)[k as int]].url is Some,
        probed_streams(media) == before.media_streams@,
        request.stream_index == after.media_streams@[before.media_streams@.len() + k].index,
        subtitle_step(
            request,
            SubtitleStage::Source,
            SubtitleEvent::Source(Some(&media)),
            fetch,
        ),
        subtitle_step(
            request,
            fetch.0,
            SubtitleEvent::Subtitles {
                subs: &subs,
                langs: &langs,
                name: &before.name,
                path: &before.path,
            },
            read,
        ),
    ensures
        fetch.1 is FetchSubtitles,
        read.1 matches SubtitleAction::ReadExternal { position, .. } && position
            == external_positions(subs@, langs@, before.name, before.path)[k as int],
{
    crate::subtitle_index::injected_subtitles_are_found_again(
        before,
        after,
        subs@,
        converted,
        item_id,
        api_key,
        langs@,
        k,
    );
}

/// A stream of the file is never looked for among the addons.
pub proof fn embedded_subtitles_come_from_the_file(
    request: SubtitleRequest,
    media: Media,
    next: (SubtitleStage, SubtitleAction),
)
    requires
        has_index(probed_streams(media), request.stream_index),
        subtitle_step(request, SubtitleStage::Source, SubtitleEvent::Source(Some(&media)), next),
    ensures
        next.0 is Stream,
        next.1 is FindStream,
{
    crate::subtitle_index::embedded_indices_are_not_external(
        probed_streams(media),
        request.stream_index,
    );
}

/// While a batch extracts a subtitle, nothing else does.
pub proof fn batches_are_waited_for(
    request: SubtitleRequest,
    stage: SubtitleStage,
    content: Option<Vec<u8>>,
    next: (SubtitleStage, SubtitleAction),
)
    requires
        stage is Cache,
        !is_cached(content),
        subtitle_step(
            request,
            stage,
            SubtitleEvent::Cache { content, batch_done: Some(false) },
            next,
        ),
    ensures
        next.1 is WaitForBatch,
{
}

/// A client that asks for Advanced SubStation Alpha gets what ffmpeg made in that
/// format of the text in the cache, or no subtitle of the file at all.
pub proof fn ass_requests_get_ass(
    request: SubtitleRequest,
    stage: SubtitleStage,
    event: SubtitleEvent,
    next: (SubtitleStage, SubtitleAction),
)
    requires
        ascii_lowered(request.format@) == "ass"@ || ascii_lowered(request.format@) == "ssa"@,
        subtitle_step(request, stage, event, next),
        stage !is ExternalBytes,
        stage !is BinaryRun,
    ensures
        next.0 !is BinaryRun,
        next.1 matches SubtitleAction::Reply { head, body } ==> head.status == 200 ==> stage
            is AssRun && (event matches SubtitleEvent::Output(OutputOutcome::Exited {
            success: true,
            stdout,
        }) && body == SubtitleBody::Bytes(stdout)),
        next.0 is AssRun && next.1 !is Ignore ==> (next.1 matches SubtitleAction::ConvertToAss {
            args,
            input,
        } && texts(args@) == ass_args() && (event matches SubtitleEvent::CachedText(Ok(bytes))
            && input@ == text_of_bytes(bytes@))),
{
    lemma_ass_formats();
}

proof fn lemma_ass_formats()
    ensures
        embedded_format("ass"@).0 is Ass,
        embedded_format("ssa"@).0 is Ass,
{
    reveal_strlit("ass");
    reveal_strlit("ssa");
    reveal_strlit("vtt");
    reveal_strlit("webvtt");
    reveal_strlit("js");
    reveal_strlit("json");
    assert("ass"@[0] == 'a' && "ssa"@[0] == 's' && "vtt"@[0] == 'v' && "webvtt"@[0] == 'w');
    assert("js"@[0] == 'j' && "json"@[0] == 'j');
}

/// The formats of a subtitle from an addon: WebVTT under two names, JSON under one,
/// and its own text under any other.
pub proof fn external_formats_have_names(format: &str, r: (Conversion, &'static str))
    requires
        call_ensures(choose_external_format, (format,), r),
    ensures
        format@ == "vtt"@ || format@ == "webvtt"@ ==> r.0 == Conversion::WebVtt && r.1@
            == "text/vtt; charset=utf-8"@,
        format@ == "js"@ ==> r.0 == Conversion::Json && r.1@ == "application/json"@,
        format@ != "vtt"@ && format@ != "webvtt"@ && format@ != "js"@ ==> r.0 == Conversion::Keep
            && r.1@ == "text/plain; charset=utf-8"@,
{
    reveal_strlit("vtt");
    reveal_strlit("webvtt");
    reveal_strlit("js");
    assert("js"@[0] == 'j' && "vtt"@[0] == 'v' && "webvtt"@[0] == 'w');
}

/// The formats of a subtitle of the file: WebVTT, JSON, Advanced SubStation Alpha
/// and pictures under two names each, and SRT under any other.
pub proof fn embedded_formats_have_names(format: &str, r: (EmbeddedFormat, &'static str))
    requires
        call_ensures(choose_embedded_format, (format,), r),
    ensures
        format@ == "vtt"@ || format@ == "webvtt"@ ==> r.0 == EmbeddedFormat::Text(
            Conversion::WebVtt,
        ) && r.1@ == "text/vtt; charset=utf-8"@,
        format@ == "js"@ || format@ == "json"@ ==> r.0 == EmbeddedFormat::Text(Conversion::Json)
            && r.1@ == "application/json; charset=utf-8"@,
        format@ == "ass"@ || format@ == "ssa"@ ==> r.0 == EmbeddedFormat::Ass && r.1@
            == "text/plain; charset=utf-8"@,
        format@ == "sup"@ || format@ == "pgssub"@ ==> r.0 == EmbeddedFormat::Pictures && r.1@
            == "application/octet-stream"@,
        format@ != "vtt"@ && format@ != "webvtt"@ && format@ != "js"@ && format@ != "json"@
            && format@ != "ass"@ && format@ != "ssa"@ && format@ != "sup"@ && format@ != "pgssub"@
            ==> r.0 == EmbeddedFormat::Text(Conversion::Keep) && r.1@
            == "text/plain; charset=utf-8"@,
{
    reveal_strlit("vtt");
    reveal_strlit("webvtt");
    reveal_strlit("js");
    reveal_strlit("json");
    reveal_strlit("ass");
    reveal_strlit("ssa");
    reveal_strlit("sup");
    reveal_strlit("pgssub");
    assert("vtt"@[0] == 'v' && "webvtt"@[0] == 'w' && "js"@[0] == 'j' && "json"@[0] == 'j');
    assert("ass"@[0] == 'a' && "ssa"@[0] == 's' && "sup"@[0] == 's' && "pgssub"@[0] == 'p');
    assert("ssa"@[1] == 's' && "sup"@[1] == 'u');
}

/// An external subtitle has an address for clients exactly if it has one itself and
/// that can be written.
pub proof fn addresses_are_written_descriptors(sub: &SubtitleInfo, json: Option<String>, r: String)
    requires
        call_ensures(descriptor_to_subtitle_url, (sub, json), r),
    ensures
        sub.url is None ==> r@.len() == 0,
        json is None ==> r@.len() == 0,
        sub.url is Some ==> (json matches Some(text) ==> r@ == text@),
{
}

/// The indices of an event fit exactly if the one that is asked for can be counted
/// from behind the highest of the file. Without streams it always can.
pub proof fn indices_can_be_counted_from(
    request: &SubtitleRequest,
    media: &Media,
    k: int,
    r: bool,
)
    requires
        call_ensures(check_indices, (request, &SubtitleEvent::Source(Some(media))), r),
    ensures
        probed_streams(*media).len() == 0 ==> r,
        0 <= k < probed_streams(*media).len() && (forall|j: int|
            0 <= j < probed_streams(*media).len() ==> (#[trigger] probed_streams(*media)[j]).index
                <= probed_streams(*media)[k].index) ==> (r <==> probed_streams(*media)[k].index
            < i64::MAX && i64::MIN <= request.stream_index - probed_streams(*media)[k].index - 1
            <= i64::MAX),
{
    let streams = probed_streams(*media);
    crate::subtitle_index::highest_index_is_highest(streams);
    if let Some(m) = crate::subtitle_index::highest_index(streams) {
        let i = choose|i: int| 0 <= i < streams.len() && (#[trigger] streams[i]).index == m;
        assert(streams[i].index == m);
    }
}

/// The streams of a file are those that its probe found.
pub proof fn streams_are_those_of_the_probe(media: Media)
    ensures
        media.probe_data matches Some(probe) ==> probed_streams(media) == probe.media_streams@,
        media.probe_data is None ==> probed_streams(media).len() == 0,
{
}

/// The addons are asked exactly where the item is known, a stream of it is found, and
/// the index is behind those of the file. In every other case the stream itself is
/// looked for.
pub proof fn addons_are_asked_for_indices_behind_the_file(
    request: &SubtitleRequest,
    stage: SubtitleStage,
    event: SubtitleEvent,
    next: (SubtitleStage, SubtitleAction),
)
    requires
        call_ensures(subtitles_stream, (request, stage, event), next),
    ensures
        stage is Item ==> (event matches SubtitleEvent::Item(known) ==> if known {
            next.0 is Source && next.1 is FindSource
        } else {
            next.0 is Stream && next.1 is FindStream
        }),
        stage is Source ==> (event matches SubtitleEvent::Source(found) ==> match found {
            None => next.0 is Stream && next.1 is FindStream,
            Some(media) => if (forall|k: int|
                0 <= k < probed_streams(*media).len() ==> (
                #[trigger] probed_streams(*media)[k]).index < request.stream_index) && (
            probed_streams(*media).len() == 0 ==> request.stream_index >= 0) {
                next.1 is FetchSubtitles && (next.0 matches SubtitleStage::Subtitles { place }
                    && external_place(probed_streams(*media), request.stream_index) == Some(place))
            } else {
                next.0 is Stream && next.1 is FindStream
            },
        }),
{
    if let SubtitleEvent::Source(Some(media)) = event {
        let streams = probed_streams(*media);
        crate::subtitle_index::highest_index_is_highest(streams);
        if let Some(m) = crate::subtitle_index::highest_index(streams) {
            let k = choose|k: int| 0 <= k < streams.len() && (#[trigger] streams[k]).index == m;
            assert(streams[k].index == m);
        }
        if has_index(streams, request.stream_index) {
            let k = choose|k: int|
                0 <= k < streams.len() && (#[trigger] streams[k]).index == request.stream_index;
            assert(streams[k].index == request.stream_index);
        }
    }
}

/// The external subtitle that is read is the one at the place that is asked for in
/// the order of preference, through the addon that its address names. A place behind
/// the last, or a subtitle without an address, leads to the stream.
pub proof fn external_subtitles_are_read_by_their_place(
    request: &SubtitleRequest,
    place: usize,
    subs: &Vec<SubtitleInfo>,
    langs: &Vec<String>,
    name: &Option<String>,
    path: &Option<String>,
    next: (SubtitleStage, SubtitleAction),
)
    requires
        call_ensures(
            subtitles_stream,
            (
                request,
                SubtitleStage::Subtitles { place },
                SubtitleEvent::Subtitles { subs, langs, name, path },
            ),
            next,
        ),
    ensures
        place >= external_positions(subs@, langs@, *name, *path).len() ==> next.0 is Stream
            && next.1 is FindStream,
        place < external_positions(subs@, langs@, *name, *path).len() ==> {
            let at = external_positions(subs@, langs@, *name, *path)[place as int];
            &&& subs@[at].url is None ==> next.0 is Stream && next.1 is FindStream
            &&& subs@[at].url matches Some(url) ==> next.0 is ExternalBytes && (
            next.1 matches SubtitleAction::ReadExternal { position, addon } && position == at && {
                &&& url matches StreamDescriptor::Opendal { addon_id, .. } ==> addon == Some(
                    addon_id,
                )
                &&& url !is Opendal ==> addon is None
            })
        },
{
}

/// An external subtitle that was read is sent with its own text and the conversion
/// for the format that the client asks for, in any case of letters. One that was not
/// fails with the reason.
pub proof fn external_subtitles_are_sent(
    request: &SubtitleRequest,
    read: Result<Vec<u8>, ServeError>,
    next: (SubtitleStage, SubtitleAction),
)
    requires
        call_ensures(
            subtitles_stream,
            (request, SubtitleStage::ExternalBytes, SubtitleEvent::ExternalBytes(read)),
            next,
        ),
    ensures
        next.0 is Finished,
        read matches Ok(bytes) ==> (next.1 matches SubtitleAction::Reply {
            head,
            body: SubtitleBody::Srt { text, conversion },
        } && text@ == text_of_bytes(bytes@) && head.status == 200 && (
        head.cache_control matches Some(c) && c@ == "public, max-age=3600"@) && (
        head.allow_origin matches Some(o) && o@ == "*"@) && (head.content_type matches Some(t) && (
            conversion,
            t@,
        ) == external_format(ascii_lowered(request.format@)))),
        read matches Err(ServeError::NoAddon) ==> (next.1 matches SubtitleAction::Fail(t) && t@
            == "addon not found for subtitle"@),
        read matches Err(ServeError::NoStreamCapability) ==> (next.1 matches SubtitleAction::Fail(
            t,
        ) && t@ == "addon has no stream capability"@),
        read matches Err(ServeError::Refused(e)) ==> (next.1 matches SubtitleAction::Fail(t) && t@
            == e@),
        read matches Err(ServeError::Unreadable(e)) ==> (next.1 matches SubtitleAction::Fail(t)
            && t@ == "read subtitle bytes: "@ + e@),
{
}

/// A subtitle of the file is looked for at the address of the stream and by its
/// place among the subtitle streams. Without an address, or without such a subtitle
/// stream, the request is refused.
pub proof fn subtitles_are_looked_for_in_the_file(
    request: &SubtitleRequest,
    media: &Media,
    next: (SubtitleStage, SubtitleAction),
)
    requires
        call_ensures(
            subtitles_stream,
            (request, SubtitleStage::Stream, SubtitleEvent::Stream(media)),
            next,
        ),
    ensures
        media.stream_info is None ==> next.0 is Finished && (next.1 matches SubtitleAction::NotFound(
            t,
        ) && t@ == "media source has no URL"@),
        media.stream_info is Some && subtitle_ordinal(
            probed_streams(*media),
            request.stream_index,
        ) is None ==> next.0 is Finished && (next.1 matches SubtitleAction::NotFound(t) && t@
            == "subtitle stream not found"@),
        media.stream_info matches Some(info) ==> subtitle_ordinal(
            probed_streams(*media),
            request.stream_index,
        ) matches Some(n) ==> {
            let format = ascii_lowered(request.format@);
            let spec_text = "0:s:"@ + crate::number::digits(n);
            &&& format == "sup"@ || format == "pgssub"@ ==> next.0 is BinaryRun && (
            next.1 matches SubtitleAction::RunBinary(args) && {
                &&& args@.len() == 12
                &&& args@[0]@ == "-copyts"@ && args@[1]@ == "-i"@ && args@[2]@
                    == info.server_input@
                &&& args@[3]@ == "-map"@ && args@[4]@ == spec_text
                &&& args@[5]@ == "-an"@ && args@[6]@ == "-vn"@
                &&& args@[7]@ == "-c:s"@ && args@[8]@ == "copy"@
                &&& args@[9]@ == "-f"@ && args@[10]@ == format && args@[11]@ == "-"@
            })
            &&& format != "sup"@ && format != "pgssub"@ ==> (next.0 matches SubtitleStage::Cache {
                input_url,
                map_spec,
            } && input_url@ == info.server_input@ && map_spec@ == spec_text) && (
            next.1 matches SubtitleAction::LookAtCache { file_name } && file_name@
                == request.item_id.hyphenated() + "_"@ + crate::number::decimal(
                request.stream_index as int,
            ) + ".srt"@)
        },
{
    lemma_picture_formats();
    if let SubtitleAction::RunBinary(args) = next.1 {
        let said = texts(args@);
        assert(said.len() == args@.len());
        assert(said[0] == args@[0]@ && said[1] == args@[1]@ && said[2] == args@[2]@);
        assert(said[3] == args@[3]@ && said[4] == args@[4]@ && said[5] == args@[5]@);
        assert(said[6] == args@[6]@ && said[7] == args@[7]@ && said[8] == args@[8]@);
        assert(said[9] == args@[9]@ && said[10] == args@[10]@ && said[11] == args@[11]@);
    }
}

proof fn lemma_picture_formats()
    ensures
        embedded_format("sup"@).0 is Pictures,
        embedded_format("pgssub"@).0 is Pictures,
{
    reveal_strlit("vtt");
    reveal_strlit("webvtt");
    reveal_strlit("js");
    reveal_strlit("json");
    reveal_strlit("ass");
    reveal_strlit("ssa");
    reveal_strlit("sup");
    reveal_strlit("pgssub");
    assert("vtt"@[0] == 'v' && "webvtt"@[0] == 'w' && "js"@[0] == 'j' && "json"@[0] == 'j');
    assert("ass"@[0] == 'a' && "ssa"@[0] == 's' && "sup"@[0] == 's' && "pgssub"@[0] == 'p');
    assert("ssa"@[1] == 's' && "sup"@[1] == 'u');
}

/// A subtitle of the file is extracted into its cache file, from the address and the
/// stream that were found, and after a batch that is under way where it is not
/// cached. Then the file is read.
pub proof fn subtitles_of_the_file_are_extracted(
    request: &SubtitleRequest,
    stage: SubtitleStage,
    event: SubtitleEvent,
    next: (SubtitleStage, SubtitleAction),
)
    requires
        call_ensures(subtitles_stream, (request, stage, event), next),
    ensures
        stage matches SubtitleStage::Cache { input_url, map_spec } ==> event
            matches SubtitleEvent::Cache { content, batch_done } ==> if !is_cached(content)
            && batch_done == Some(false) {
            next.1 is WaitForBatch && (next.0 matches SubtitleStage::Batch {
                input_url: input,
                map_spec: map,
            } && input@ == input_url@ && map@ == map_spec@)
        } else {
            next.0 is Extraction && (next.1 matches SubtitleAction::Extract {
                input_url: input,
                map_spec: map,
                file_name,
            } && input@ == input_url@ && map@ == map_spec@ && file_name@
                == request.item_id.hyphenated() + "_"@ + crate::number::decimal(
                request.stream_index as int,
            ) + ".srt"@)
        },
        stage matches SubtitleStage::Batch { input_url, map_spec } ==> event is BatchWaited
            ==> next.0 is Extraction && (next.1 matches SubtitleAction::Extract {
            input_url: input,
            map_spec: map,
            file_name,
        } && input@ == input_url@ && map@ == map_spec@ && file_name@
            == request.item_id.hyphenated() + "_"@ + crate::number::decimal(
            request.stream_index as int,
        ) + ".srt"@),
        stage is Extraction ==> (event matches SubtitleEvent::Extraction(ready) ==> if ready {
            next.0 is CachedText && next.1 is ReadCache
        } else {
            next.0 is Finished && (next.1 matches SubtitleAction::Reply {
                head,
                body: SubtitleBody::Note(note),
            } && note@ == "subtitle extraction failed"@ && head.status == 500
                && head.content_type is None && head.cache_control is None
                && head.allow_origin is None)
        }),
        stage is CachedText ==> (event matches SubtitleEvent::CachedText(Err(e))
            ==> next.0 is Finished && (next.1 matches SubtitleAction::Fail(t) && t@
            == "failed to read cached subtitle: "@ + e@)),
        next.1 is Ignore ==> next.0 == stage,
        next.1 is Ignore <==> !(stage is Item && event is Item) && !(stage is Source
            && event is Source) && !(stage is Subtitles && event is Subtitles) && !(
        stage is ExternalBytes && event is ExternalBytes) && !(stage is Stream && event is Stream)
            && !((stage is BinaryRun || stage is AssRun) && event is Output) && !(stage is Cache
            && event is Cache) && !(stage is Batch && event is BatchWaited) && !(
        stage is Extraction && event is Extraction) && !(stage is CachedText
            && event is CachedText),
{
}

/// The text in the cache is sent with the conversion for the format that the client
/// asks for. For Advanced SubStation Alpha ffmpeg makes the text into that first.
pub proof fn cached_text_is_sent(
    request: &SubtitleRequest,
    bytes: Vec<u8>,
    next: (SubtitleStage, SubtitleAction),
)
    requires
        call_ensures(
            subtitles_stream,
            (request, SubtitleStage::CachedText, SubtitleEvent::CachedText(Ok(bytes))),
            next,
        ),
    ensures
        ascii_lowered(request.format@) == "ass"@ || ascii_lowered(request.format@) == "ssa"@
            ==> next.0 is AssRun && (next.1 matches SubtitleAction::ConvertToAss { args, input }
            && input@ == text_of_bytes(bytes@) && {
            &&& args@.len() == 9
            &&& args@[0]@ == "-f"@ && args@[1]@ == "srt"@ && args@[2]@ == "-i"@ && args@[3]@ == "-"@
            &&& args@[4]@ == "-c:s"@ && args@[5]@ == "ass"@
            &&& args@[6]@ == "-f"@ && args@[7]@ == "ass"@ && args@[8]@ == "-"@
        }),
        ascii_lowered(request.format@) != "ass"@ && ascii_lowered(request.format@) != "ssa"@
            ==> next.0 is Finished && (next.1 matches SubtitleAction::Reply {
            head,
            body: SubtitleBody::Srt { text, conversion },
        } && text@ == text_of_bytes(bytes@) && head.status == 200 && (
        head.cache_control matches Some(c) && c@ == "public, max-age=3600"@) && (
        head.allow_origin matches Some(o) && o@ == "*"@) && (head.content_type matches Some(t) && t@
            == embedded_format(ascii_lowered(request.format@)).1) && conversion == (
        match embedded_format(ascii_lowered(request.format@)).0 {
            EmbeddedFormat::Text(c) => c,
            _ => Conversion::Keep,
        })),
{
    lemma_ass_formats();
    if let SubtitleAction::ConvertToAss { args, input } = next.1 {
        let said = texts(args@);
        assert(said.len() == args@.len());
        assert(said[0] == args@[0]@ && said[1] == args@[1]@ && said[2] == args@[2]@);
        assert(said[3] == args@[3]@ && said[4] == args@[4]@ && said[5] == args@[5]@);
        assert(said[6] == args@[6]@ && said[7] == args@[7]@ && said[8] == args@[8]@);
    }
}

/// What ffmpeg writes is sent as it is where the run succeeded. A run for pictures
/// that did not end or start fails with the reason, and every other run that went
/// wrong is answered with a note.
pub proof fn what_ffmpeg_writes_is_sent(
    request: &SubtitleRequest,
    stage: SubtitleStage,
    outcome: OutputOutcome,
    next: (SubtitleStage, SubtitleAction),
)
    requires
        stage is BinaryRun || stage is AssRun,
        call_ensures(subtitles_stream, (request, stage, SubtitleEvent::Output(outcome)), next),
    ensures
        next.0 is Finished,
        outcome matches OutputOutcome::Exited { success: true, stdout } ==> (
        next.1 matches SubtitleAction::Reply { head, body: SubtitleBody::Bytes(bytes) } && bytes@
            == stdout@ && head.status == 200 && (head.content_type matches Some(t) && t@
            == embedded_format(ascii_lowered(request.format@)).1) && {
            &&& stage is AssRun ==> (head.cache_control matches Some(c) && c@
                == "public, max-age=3600"@) && (head.allow_origin matches Some(o) && o@ == "*"@)
            &&& stage is BinaryRun ==> head.cache_control is None && head.allow_origin is None
        }),
        stage is BinaryRun && outcome is TimedOut ==> (next.1 matches SubtitleAction::Fail(t) && t@
            == "subtitle extraction timed out"@),
        stage is BinaryRun ==> (outcome matches OutputOutcome::NotStarted(e) ==> (
        next.1 matches SubtitleAction::Fail(t) && t@ == "failed to run ffmpeg: "@ + e@)),
        (outcome matches OutputOutcome::Exited { success: false, .. }) || (stage is AssRun && !(
        outcome matches OutputOutcome::Exited { success: true, .. })) ==> (
        next.1 matches SubtitleAction::Reply { head, body: SubtitleBody::Note(note) } && note@
            == "subtitle extraction failed"@ && head.status == 500 && head.content_type is None
            && head.cache_control is None && head.allow_origin is None),
{
}

} // verus!
