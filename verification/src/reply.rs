//! Heads of HTTP replies.

use vstd::prelude::*;

verus! {

/// The status and the headers of a reply. A header that is not sent is `None`.
#[derive(Clone, Copy, Debug, PartialEq, Eq)]
pub struct ReplyHead {
    pub status: u16,
    pub content_type: Option<&'static str>,
    pub cache_control: Option<&'static str>,
    /// `Access-Control-Allow-Origin`.
    pub allow_origin: Option<&'static str>,
}

/// A header with this text.
pub open spec fn says(header: Option<&'static str>, text: Seq<char>) -> bool {
    header matches Some(h) && h@ == text
}

impl ReplyHead {
    /// The head of a playlist, which is never cached.
    pub open spec fn is_playlist(self) -> bool {
        &&& self.status == 200
        &&& says(self.content_type, "application/vnd.apple.mpegurl"@)
        &&& says(self.cache_control, "no-cache, no-store"@)
        &&& self.allow_origin is None
    }

    /// The head of a media segment, which may be cached for a day.
    pub open spec fn is_segment(self, content_type: Seq<char>) -> bool {
        &&& self.status == 200
        &&& says(self.content_type, content_type)
        &&& says(self.cache_control, "public, max-age=86400"@)
        &&& self.allow_origin is None
    }

    /// The head of a subtitle text, which any page may read and which may be
    /// cached for an hour.
    pub open spec fn is_subtitle(self, content_type: Seq<char>) -> bool {
        &&& self.status == 200
        &&& says(self.content_type, content_type)
        &&& says(self.cache_control, "public, max-age=3600"@)
        &&& says(self.allow_origin, "*"@)
    }

    /// A head with a status and at most a content type.
    pub open spec fn is_bare(self, status: u16, content_type: Option<&'static str>) -> bool {
        &&& self.status == status
        &&& self.content_type == content_type
        &&& self.cache_control is None
        &&& self.allow_origin is None
    }

    pub fn playlist() -> (r: ReplyHead)
        ensures
            r.is_playlist(),
    {
        ReplyHead {
            status: 200,
            content_type: Some("application/vnd.apple.mpegurl"),
            cache_control: Some("no-cache, no-store"),
            allow_origin: None,
        }
    }

    pub fn segment(content_type: &'static str) -> (r: ReplyHead)
        ensures
            r.is_segment(content_type@),
    {
        ReplyHead {
            status: 200,
            content_type: Some(content_type),
            cache_control: Some("public, max-age=86400"),
            allow_origin: None,
        }
    }

    pub fn subtitle(content_type: &'static str) -> (r: ReplyHead)
        ensures
            r.is_subtitle(content_type@),
    {
        ReplyHead {
            status: 200,
            content_type: Some(content_type),
            cache_control: Some("public, max-age=3600"),
            allow_origin: Some("*"),
        }
    }

    pub fn bare(status: u16, content_type: Option<&'static str>) -> (r: ReplyHead)
        ensures
            r.is_bare(status, content_type),
    {
        ReplyHead { status, content_type, cache_control: None, allow_origin: None }
    }
}

/// What each kind of reply says of itself: playlists are never kept, segments for a
/// day, subtitles for an hour, and only subtitles may be read by any page.
pub proof fn heads_say_how_long_a_reply_is_kept(
    content_type: &'static str,
    status: u16,
    given: Option<&'static str>,
    playlist: ReplyHead,
    segment: ReplyHead,
    subtitle: ReplyHead,
    bare: ReplyHead,
)
    requires
        call_ensures(ReplyHead::playlist, (), playlist),
        call_ensures(ReplyHead::segment, (content_type,), segment),
        call_ensures(ReplyHead::subtitle, (content_type,), subtitle),
        call_ensures(ReplyHead::bare, (status, given), bare),
    ensures
        playlist.status == 200 && segment.status == 200 && subtitle.status == 200,
        bare.status == status,
        playlist.content_type matches Some(t) && t@ == "application/vnd.apple.mpegurl"@,
        segment.content_type matches Some(t) && t@ == content_type@,
        subtitle.content_type matches Some(t) && t@ == content_type@,
        bare.content_type == given,
        playlist.cache_control matches Some(c) && c@ == "no-cache, no-store"@,
        segment.cache_control matches Some(c) && c@ == "public, max-age=86400"@,
        subtitle.cache_control matches Some(c) && c@ == "public, max-age=3600"@,
        subtitle.allow_origin matches Some(o) && o@ == "*"@,
        playlist.allow_origin is None && segment.allow_origin is None && bare.allow_origin is None,
        bare.cache_control is None,
{
}

/// A head is known for what it is by its fields alone.
pub proof fn heads_are_known_by_their_fields(head: ReplyHead, content_type: Seq<char>, status: u16)
    ensures
        head.is_playlist() <==> head.status == 200 && head.allow_origin is None && (
        head.content_type matches Some(t) && t@ == "application/vnd.apple.mpegurl"@) && (
        head.cache_control matches Some(c) && c@ == "no-cache, no-store"@),
        head.is_segment(content_type) <==> head.status == 200 && head.allow_origin is None && (
        head.content_type matches Some(t) && t@ == content_type) && (
        head.cache_control matches Some(c) && c@ == "public, max-age=86400"@),
        head.is_subtitle(content_type) <==> head.status == 200 && (
        head.allow_origin matches Some(o) && o@ == "*"@) && (
        head.content_type matches Some(t) && t@ == content_type) && (
        head.cache_control matches Some(c) && c@ == "public, max-age=3600"@),
        head.is_bare(status, None) <==> head.status == status && head.content_type is None
            && head.cache_control is None && head.allow_origin is None,
{
}

} // verus!
