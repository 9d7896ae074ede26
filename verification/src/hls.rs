//! HLS playlists: which are served, and how.

use vstd::prelude::*;

use crate::playlist::client_playlist;
use crate::playlist::playlist_has_segment;
use crate::playlist::rewrite_playlist;
use crate::reply::ReplyHead;
use crate::text::has_part;
use crate::text::head_before;
use crate::text::same_text;
use crate::transcode::HlsVideoQuery;

verus! {

/// The audio codec for a transcode. Live sources often carry AAC in LATM
/// framing, which browsers cannot play when it is copied, so a live source is
/// never copied.
pub fn resolve_live_audio_codec(is_live: bool, requested: &str) -> (r: String)
    ensures
        r@ == (if is_live && requested@ == "copy"@ {
            "aac"@
        } else {
            requested@
        }),
{
    if is_live && same_text(requested, "copy") {
        "aac".to_owned()
    } else {
        requested.to_owned()
    }
}

/// Whether a variant playlist is the one that ffmpeg wrote. It always is: only
/// ffmpeg's playlist states the true segment durations.
pub fn should_serve_ffmpeg_variant_playlist(
    is_live: bool,
    use_fmp4: bool,
    start_time_secs: u32,
) -> (r: bool)
    ensures
        r,
{
    true
}

/// A segment's file name without its extension.
pub fn strip_segment_extension(filename: &str) -> (r: String)
    ensures
        r@ == crate::text::before_last(filename@, '.'),
{
    head_before(filename, '.')
}

/// A playlist as a client gets it.
#[derive(Debug)]
pub struct PlaylistReply {
    pub head: ReplyHead,
    pub body: String,
}

/// Serves a master playlist.
pub fn master_hls_video(playlist: String) -> (r: PlaylistReply)
    ensures
        r.head.is_playlist(),
        r.body == playlist,
{
    PlaylistReply { head: ReplyHead::playlist(), body: playlist }
}

/// The query with which a request for a live stream goes on to the variant
/// playlist of the play session that was made for it.
pub fn live_hls_video(query: HlsVideoQuery, play_session_id: String) -> (r: HlsVideoQuery)
    ensures
        r == (HlsVideoQuery { play_session_id: Some(play_session_id), ..query }),
{
    let mut q: HlsVideoQuery = query;
    q.play_session_id = Some(play_session_id);
    q
}

// ---------------------------------------------------------------------------
// Variant playlists
// ---------------------------------------------------------------------------

/// How long a request waits for the first segment, and how long it waits before
/// it looks again.
pub const PLAYLIST_TIMEOUT_MILLIS: u64 = 15_000;

pub const PLAYLIST_WAIT_MILLIS: u64 = 500;

/// What a request for a variant playlist waits for.
#[derive(Debug)]
pub enum VariantStage {
    Start,
    Session,
    /// A playlist with a segment. `id` is that of the play session.
    Playlist { id: String, is_live: bool },
    Finished,
}

/// What happened to a request for a variant playlist.
#[derive(Debug)]
pub enum VariantEvent {
    Begin,
    /// The transcode of the play session, if it has one.
    Session(Option<VariantSession>),
    /// The text of the playlist, `None` where it cannot be read.
    Playlist(Option<String>),
    /// The request has waited long enough.
    TimedOut,
}

/// What a variant playlist depends on.
#[derive(Debug)]
pub struct VariantSession {
    pub id: String,
    pub is_live: bool,
    pub use_fmp4: bool,
    pub start_time_secs: u32,
}

/// What a request for a variant playlist asks for next.
#[derive(Debug)]
pub enum VariantAction {
    FindSession,
    /// Keep the play session alive and read the playlist that ffmpeg writes.
    ReadPlaylist,
    /// Wait, then read the playlist again.
    Wait { millis: u64 },
    /// Make a playlist in place of ffmpeg's.
    GeneratePlaylist,
    Reply(PlaylistReply),
    NotFound(&'static str),
    /// The event is not the one that was waited for: nothing is to be done.
    Ignore,
}

/// A refusal with this text.
pub open spec fn refuses(next: (VariantStage, VariantAction), text: Seq<char>) -> bool {
    next.0 is Finished && (next.1 matches VariantAction::NotFound(t) && t@ == text)
}

/// A reply with ffmpeg's playlist, made ready for the client.
pub open spec fn replies_playlist(
    next: (VariantStage, VariantAction),
    is_live: bool,
    content: Seq<char>,
    id: Seq<char>,
) -> bool {
    next.0 is Finished && (next.1 matches VariantAction::Reply(reply) && reply.head.is_playlist()
        && reply.body@ == client_playlist(is_live, content, id))
}

/// How a request for a variant playlist goes on after what it waited for has
/// happened. A request that has waited long enough gets an empty playlist.
pub open spec fn variant_step(
    query: HlsVideoQuery,
    stage: VariantStage,
    event: VariantEvent,
    next: (VariantStage, VariantAction),
) -> bool {
    match (stage, event) {
        (VariantStage::Start, VariantEvent::Begin) => if query.play_session_id is None {
            refuses(next, "PlaySessionId is required"@)
        } else {
            next.0 is Session && next.1 is FindSession
        },
        (VariantStage::Session, VariantEvent::Session(found)) => match found {
            None => refuses(next, "transcode session not found"@),
            Some(session) => {
                &&& next.0 == (VariantStage::Playlist { id: session.id, is_live: session.is_live })
                &&& next.1 is ReadPlaylist
            },
        },
        (VariantStage::Playlist { id, is_live }, VariantEvent::Playlist(content)) => {
            if content matches Some(text) && has_part(text@, "#EXTINF"@) {
                replies_playlist(next, is_live, content->0@, id@)
            } else {
                next.0 == stage && next.1 == (VariantAction::Wait { millis: PLAYLIST_WAIT_MILLIS })
            }
        },
        (VariantStage::Playlist { id, is_live }, VariantEvent::TimedOut) => replies_playlist(
            next,
            is_live,
            Seq::empty(),
            id@,
        ),
        _ => next.0 == stage && next.1 is Ignore,
    }
}

fn reply_playlist(is_live: bool, content: &str, id: &str) -> (next: (VariantStage, VariantAction))
    ensures
        replies_playlist(next, is_live, content@, id@),
{
    let body: String = rewrite_playlist(is_live, content, id);
    (
        VariantStage::Finished,
        VariantAction::Reply(PlaylistReply { head: ReplyHead::playlist(), body }),
    )
}

/// Serves a variant playlist: from the stage of a request and what happened to
/// the stage that follows and what is to be done. A request starts at
/// [`VariantStage::Start`].
pub fn variant_hls_video_inner(
    query: &HlsVideoQuery,
    stage: VariantStage,
    event: VariantEvent,
) -> (next: (VariantStage, VariantAction))
    ensures
        variant_step(*query, stage, event, next),
{
    match (stage, event) {
        (VariantStage::Start, VariantEvent::Begin) => {
            if query.play_session_id.is_none() {
                (VariantStage::Finished, VariantAction::NotFound("PlaySessionId is required"))
            } else {
                (VariantStage::Session, VariantAction::FindSession)
            }
        },
        (VariantStage::Session, VariantEvent::Session(found)) => match found {
            None => (VariantStage::Finished, VariantAction::NotFound("transcode session not found")),
            Some(session) => {
                if should_serve_ffmpeg_variant_playlist(
                    session.is_live,
                    session.use_fmp4,
                    session.start_time_secs,
                ) {
                    (
                        VariantStage::Playlist { id: session.id, is_live: session.is_live },
                        VariantAction::ReadPlaylist,
                    )
                } else {
                    (VariantStage::Finished, VariantAction::GeneratePlaylist)
                }
            },
        },
        (VariantStage::Playlist { id, is_live }, VariantEvent::Playlist(content)) => {
            match content {
                Some(text) => {
                    if playlist_has_segment(text.as_str()) {
                        return reply_playlist(is_live, text.as_str(), id.as_str());
                    }
                },
                None => {},
            }
            (
                VariantStage::Playlist { id, is_live },
                VariantAction::Wait { millis: PLAYLIST_WAIT_MILLIS },
            )
        },
        (VariantStage::Playlist { id, is_live }, VariantEvent::TimedOut) => {
            let nothing: String = String::new();
            assert(nothing@ =~= Seq::<char>::empty());
            reply_playlist(is_live, nothing.as_str(), id.as_str())
        },
        (stage, _) => (stage, VariantAction::Ignore),
    }
}

/// Starts a request for a variant playlist.
pub fn variant_hls_video(query: &HlsVideoQuery) -> (next: (VariantStage, VariantAction))
    ensures
        variant_step(*query, VariantStage::Start, VariantEvent::Begin, next),
{
    variant_hls_video_inner(query, VariantStage::Start, VariantEvent::Begin)
}

/// Starts a request for a variant playlist under its other address.
pub fn variant_hls_video_alt(query: &HlsVideoQuery) -> (next: (VariantStage, VariantAction))
    ensures
        variant_step(*query, VariantStage::Start, VariantEvent::Begin, next),
{
    variant_hls_video_inner(query, VariantStage::Start, VariantEvent::Begin)
}

// ---------------------------------------------------------------------------
// Laws
// ---------------------------------------------------------------------------

/// A request for a live stream always names a play session.
pub proof fn live_requests_name_their_session(
    query: HlsVideoQuery,
    play_session_id: String,
    next: (VariantStage, VariantAction),
)
    requires
        variant_step(
            (HlsVideoQuery { play_session_id: Some(play_session_id), ..query }),
            VariantStage::Start,
            VariantEvent::Begin,
            next,
        ),
    ensures
        next.1 is FindSession,
{
}

/// A client gets a playlist with a segment, or an empty one when it has waited
/// long enough, and never a playlist that ffmpeg did not write.
pub proof fn playlists_hold_a_segment(
    query: HlsVideoQuery,
    stage: VariantStage,
    event: VariantEvent,
    next: (VariantStage, VariantAction),
)
    requires
        variant_step(query, stage, event, next),
    ensures
        next.1 !is GeneratePlaylist,
        next.1 matches VariantAction::Reply(reply) ==> match event {
            VariantEvent::Playlist(content) => content matches Some(text) && has_part(
                text@,
                "#EXTINF"@,
            ),
            VariantEvent::TimedOut => reply.body@ == Seq::<char>::empty(),
            _ => false,
        },
{
    if let VariantEvent::TimedOut = event {
        if let VariantStage::Playlist { id, is_live } = stage {
            crate::playlist::empty_playlists_stay_empty(is_live, id@);
        }
    }
}

/// Sound that a live source would copy is encoded, and every other wish is
/// granted.
pub proof fn live_sound_is_never_copied(is_live: bool, requested: &str, r: String)
    requires
        call_ensures(resolve_live_audio_codec, (is_live, requested), r),
    ensures
        is_live ==> r@ != "copy"@,
        !is_live || requested@ != "copy"@ ==> r@ == requested@,
        is_live && requested@ == "copy"@ ==> r@ == "aac"@,
{
    reveal_strlit("aac");
    reveal_strlit("copy");
    assert("aac"@.len() != "copy"@.len());
}

/// ffmpeg's own playlist is served whatever the session is.
pub proof fn playlists_are_those_of_ffmpeg(
    is_live: bool,
    use_fmp4: bool,
    start_time_secs: u32,
    r: bool,
)
    requires
        call_ensures(
            should_serve_ffmpeg_variant_playlist,
            (is_live, use_fmp4, start_time_secs),
            r,
        ),
    ensures
        r,
{
}

/// An extension is what follows the last dot: a name with one loses it and the dot,
/// and a name without one stays.
pub proof fn extensions_follow_the_last_dot(filename: &str, r: String)
    requires
        call_ensures(strip_segment_extension, (filename,), r),
    ensures
        !filename@.contains('.') ==> r@ == filename@,
        forall|stem: Seq<char>, extension: Seq<char>|
            !extension.contains('.') && filename@ == #[trigger] (stem + seq!['.'] + extension)
                ==> r@ == stem,
{
    crate::text::last_position_is_last(filename@, '.');
    if !filename@.contains('.') {
        if let Some(i) = crate::text::last_position(filename@, '.') {
            assert(filename@[i] == '.');
        }
    }
    assert forall|stem: Seq<char>, extension: Seq<char>|
        !extension.contains('.') && filename@ == #[trigger] (stem + seq!['.']
            + extension) implies r@ == stem by {
        let n = stem.len() as int;
        assert(filename@[n] == '.');
        assert forall|j: int| n < j < filename@.len() implies filename@[j] != '.' by {
            assert(filename@[j] == extension[j - n - 1]);
        }
        assert(filename@.take(n) =~= stem);
    }
}

/// A master playlist reaches the client as it is.
pub proof fn master_playlists_are_sent_as_they_are(playlist: String, r: PlaylistReply)
    requires
        call_ensures(master_hls_video, (playlist,), r),
    ensures
        r.body@ == playlist@,
        r.head.status == 200,
        r.head.content_type matches Some(t) && t@ == "application/vnd.apple.mpegurl"@,
        r.head.cache_control matches Some(c) && c@ == "no-cache, no-store"@,
        r.head.allow_origin is None,
{
}

/// A request for a live stream keeps all it asks for but its play session, which is
/// the one that was made for it.
pub proof fn live_requests_keep_what_they_ask_for(
    query: HlsVideoQuery,
    play_session_id: String,
    r: HlsVideoQuery,
)
    requires
        call_ensures(live_hls_video, (query, play_session_id), r),
    ensures
        r.play_session_id == Some(play_session_id),
        r.media_source_id == query.media_source_id,
        r.video_codec == query.video_codec,
        r.audio_codec == query.audio_codec,
        r.segment_length == query.segment_length,
        r.start_time_ticks == query.start_time_ticks,
        r.runtime_ticks == query.runtime_ticks,
        r.max_width == query.max_width,
        r.max_height == query.max_height,
        r.video_bit_rate == query.video_bit_rate,
        r.audio_bit_rate == query.audio_bit_rate,
        r.max_streaming_bitrate == query.max_streaming_bitrate,
        r.audio_stream_index == query.audio_stream_index,
        r.subtitle_stream_index == query.subtitle_stream_index,
        r.subtitle_method == query.subtitle_method,
        r.transcode_reasons == query.transcode_reasons,
{
}

/// A request for a variant playlist, under either address, is refused without a
/// play session and looks for its transcode with one.
pub proof fn variant_requests_need_a_session(
    query: &HlsVideoQuery,
    next: (VariantStage, VariantAction),
    other: (VariantStage, VariantAction),
)
    requires
        call_ensures(variant_hls_video, (query,), next),
        call_ensures(variant_hls_video_alt, (query,), other),
    ensures
        query.play_session_id is None ==> next.0 is Finished && other.0 is Finished && (
        next.1 matches VariantAction::NotFound(t) && t@ == "PlaySessionId is required"@) && (
        other.1 matches VariantAction::NotFound(t) && t@ == "PlaySessionId is required"@),
        query.play_session_id is Some ==> next.0 is Session && next.1 is FindSession
            && other.0 is Session && other.1 is FindSession,
{
}

/// A request for a variant playlist needs a transcode, reads the playlist of that
/// transcode until it holds a segment, and sends it under the play session's id.
pub proof fn variant_requests_get_the_playlist(
    query: &HlsVideoQuery,
    stage: VariantStage,
    event: VariantEvent,
    next: (VariantStage, VariantAction),
)
    requires
        call_ensures(variant_hls_video_inner, (query, stage, event), next),
    ensures
        stage is Start && event is Begin ==> if query.play_session_id is None {
            next.0 is Finished && (next.1 matches VariantAction::NotFound(t) && t@
                == "PlaySessionId is required"@)
        } else {
            next.0 is Session && next.1 is FindSession
        },
        stage is Session ==> (event matches VariantEvent::Session(found) ==> match found {
            None => next.0 is Finished && (next.1 matches VariantAction::NotFound(t) && t@
                == "transcode session not found"@),
            Some(session) => next.1 is ReadPlaylist && (
            next.0 matches VariantStage::Playlist { id, is_live } && id@ == session.id@ && is_live
                == session.is_live),
        }),
        stage matches VariantStage::Playlist { id, is_live } ==> event matches VariantEvent::Playlist(
            content,
        ) ==> match content {
            Some(text) if has_part(text@, "#EXTINF"@) => next.0 is Finished && (
            next.1 matches VariantAction::Reply(reply) && reply.head.is_playlist() && reply.body@
                == client_playlist(is_live, text@, id@)),
            _ => next.0 == stage && next.1 == (VariantAction::Wait { millis: 500 }),
        },
        stage is Playlist && event is TimedOut ==> next.0 is Finished && (
        next.1 matches VariantAction::Reply(reply) && reply.head.is_playlist() && reply.body@
            == Seq::<char>::empty()),
        next.1 is Ignore <==> !(stage is Start && event is Begin) && !(stage is Session
            && event is Session) && !(stage is Playlist && (event is Playlist
            || event is TimedOut)),
        next.1 is Ignore ==> next.0 == stage,
{
    if let VariantEvent::TimedOut = event {
        if let VariantStage::Playlist { id, is_live } = stage {
            crate::playlist::empty_playlists_stay_empty(is_live, id@);
        }
    }
}

} // verus!
