//! Choosing the streams of one playback request.

use vstd::prelude::*;

use crate::ids::MediaId;
use crate::media::Media;
use crate::media::MediaKind;
use crate::text::same_text;
use crate::transcode::value_or;
use crate::transcode::value_or_default;

verus! {

/// How long a preference is kept, in seconds.
pub const PREFERENCE_SECS: u64 = 86_400;

// ---------------------------------------------------------------------------
// Finding streams
// ---------------------------------------------------------------------------

/// The position of the first stream with this id.
pub open spec fn position_of(streams: Seq<Media>, id: MediaId) -> Option<int>
    decreases streams.len(),
{
    if streams.len() == 0 {
        None
    } else if streams[0].id == id {
        Some(0)
    } else {
        match position_of(streams.skip(1), id) {
            Some(k) => Some(k + 1),
            None => None,
        }
    }
}

/// The position of the stream that is wanted, else of the first.
pub open spec fn source_choice(streams: Seq<Media>, wanted: Option<MediaId>) -> Option<int> {
    let found = match wanted {
        Some(id) => position_of(streams, id),
        None => None,
    };
    if found is Some {
        found
    } else if streams.len() > 0 {
        Some(0)
    } else {
        None
    }
}

/// The position of the first stream with this id.
pub fn find_stream(streams: &Vec<Media>, id: MediaId) -> (r: Option<usize>)
    ensures
        match r {
            Some(k) => position_of(streams@, id) == Some(k as int) && k < streams.len(),
            None => position_of(streams@, id) is None,
        },
{
    let mut k: usize = 0;
    assert(streams@.skip(0) =~= streams@);
    while k < streams.len()
        invariant
            k <= streams.len(),
            position_of(streams@, id) == (match position_of(streams@.skip(k as int), id) {
                Some(m) => Some(m + k),
                None => None,
            }),
        decreases streams.len() - k,
    {
        if streams[k].id == id {
            return Some(k);
        }
        assert(streams@.skip(k as int).skip(1) =~= streams@.skip(k + 1));
        k += 1;
    }
    None
}

/// The position of the stream that is wanted, else of the first.
pub fn choose_source(streams: &Vec<Media>, wanted: Option<MediaId>) -> (r: Option<usize>)
    ensures
        match r {
            Some(k) => source_choice(streams@, wanted) == Some(k as int) && k < streams.len(),
            None => source_choice(streams@, wanted) is None,
        },
{
    let found: Option<usize> = match wanted {
        Some(id) => find_stream(streams, id),
        None => None,
    };
    match found {
        Some(k) => Some(k),
        None => if streams.is_empty() {
            None
        } else {
            Some(0)
        },
    }
}

/// A stream is found at its first position, and only where there is one.
pub proof fn positions_are_first(streams: Seq<Media>, id: MediaId)
    ensures
        match position_of(streams, id) {
            Some(k) => 0 <= k < streams.len() && streams[k].id == id && (forall|j: int|
                0 <= j < k ==> (#[trigger] streams[j]).id != id),
            None => forall|j: int| 0 <= j < streams.len() ==> (#[trigger] streams[j]).id != id,
        },
    decreases streams.len(),
{
    if streams.len() > 0 && streams[0].id != id {
        let tail = streams.skip(1);
        positions_are_first(tail, id);
        assert forall|j: int| 1 <= j < streams.len() implies streams[j] == tail[j - 1] by {}
    }
}

/// The stream that is wanted is chosen wherever it is among the streams.
pub proof fn wanted_streams_are_chosen(streams: Seq<Media>, wanted: MediaId, k: int)
    requires
        0 <= k < streams.len(),
        streams[k].id == wanted,
    ensures
        source_choice(streams, Some(wanted)) matches Some(j) && 0 <= j <= k && streams[j].id
            == wanted,
{
    positions_are_first(streams, wanted);
}

// ---------------------------------------------------------------------------
// The service
// ---------------------------------------------------------------------------

/// What a playback request asks of the service.
#[derive(Debug)]
pub struct StreamServiceConfig {
    pub item_id: MediaId,
    pub requested_id: Option<MediaId>,
    pub show_ungrouped: bool,
    /// There is a stream filter with rules.
    pub has_filter_rules: bool,
    /// Streams below 4K come first, since the client probably needs a transcode.
    pub prefer_lower_res_for_transcode: bool,
}

/// The streams of one playback request. It is made with [`StreamService::new`] and
/// filled with [`StreamService::load`].
#[derive(Debug)]
pub struct StreamService {
    pub item_id: MediaId,
    pub requested_id: Option<MediaId>,
    pub show_ungrouped: bool,
    pub has_filter_rules: bool,
    pub prefer_lower_res_for_transcode: bool,
    /// The id, the title and the candidates of the group that was asked for.
    pub group: Option<(MediaId, String, Vec<Media>)>,
    /// The stream to play, as it was when the service was loaded.
    pub stream: Option<Media>,
    pub streams: Vec<Media>,
}

/// The streams that are offered to a client and probed.
#[derive(Debug)]
pub struct StreamSelection<'a> {
    pub candidates: Vec<&'a Media>,
    /// What a probe may fall back to.
    pub probe_pool: Vec<&'a Media>,
    /// A fallback keeps the resolution.
    pub restrict_resolution: bool,
    /// Only the first candidate is probed.
    pub probe_only_first: bool,
    /// The client named a stream, which keeps its id.
    pub specific_requested: bool,
}

/// What the loading of a service waits for.
#[derive(Debug)]
pub enum LoadStage {
    Start,
    /// The streams of a group.
    GroupStreams { group: MediaId, title: String },
    /// The streams of the groups behind it.
    LaterStreams { group: MediaId, title: String, candidates: Vec<Media> },
    /// The item that the streams belong to, and its streams.
    Root,
    /// The sources that the grouping leaves.
    Sources,
    /// The sources that the stream filter leaves.
    Filtered,
    Finished,
}

/// What happened while a service is loaded.
#[derive(Debug)]
pub enum LoadEvent {
    /// The item that was asked for.
    Media(Media),
    GroupStreams(Vec<Media>),
    /// The streams of the groups behind, none where they cannot be had.
    LaterStreams(Vec<Media>),
    Root { root: Media, streams: Vec<Media> },
    Sources(Vec<Media>),
}

/// What the loading of a service asks for next.
#[derive(Debug)]
pub enum LoadAction {
    FindGroupStreams { group: MediaId },
    FindLaterStreams { group: MediaId },
    /// Find the item that the streams belong to, refresh its streams and list them.
    FindRoot,
    /// Leave out what the grouping hides.
    GroupSources { sources: Vec<Media>, show_ungrouped: bool },
    /// Leave out what the stream filter hides.
    FilterSources { sources: Vec<Media> },
    Loaded,
    Fail(String),
    /// The event is not the one that was waited for: nothing is to be done.
    Ignore,
}

/// The texts of failures.
pub open spec fn no_group_streams(group: MediaId) -> Seq<char> {
    "no streams available for group "@ + group.hyphenated()
}

pub open spec fn all_filtered_out(item_id: MediaId) -> Seq<char> {
    "no playable sources for "@ + item_id.hyphenated()
        + " (filtered out by grouping or stream policy)"@
}

pub open spec fn stream_not_found(id: MediaId) -> Seq<char> {
    "stream not found: "@ + id.hyphenated()
}

pub open spec fn nothing_playable(item_id: MediaId) -> Seq<char> {
    "no playable sources for "@ + item_id.hyphenated()
}

fn text_with_id(before: &str, id: MediaId, after: &str) -> (r: String)
    ensures
        r@ == before@ + id.hyphenated() + after@,
{
    let mut r: String = before.to_owned();
    r.append(id.to_text().as_str());
    r.append(after);
    r
}

fn text_and_id(before: &str, id: MediaId) -> (r: String)
    ensures
        r@ == before@ + id.hyphenated(),
{
    let mut r: String = before.to_owned();
    r.append(id.to_text().as_str());
    r
}

/// The loading fails with this text, and the service stays.
pub open spec fn load_fails(
    before: StreamService,
    after: StreamService,
    next: (LoadStage, LoadAction),
    text: Seq<char>,
) -> bool {
    &&& after == before
    &&& next.0 is Finished
    &&& next.1 matches LoadAction::Fail(t) && t@ == text
}

/// The loading ends with the sources that are left, or fails without any.
pub open spec fn load_ends(
    before: StreamService,
    after: StreamService,
    sources: Vec<Media>,
    next: (LoadStage, LoadAction),
) -> bool {
    if sources@.len() == 0 {
        load_fails(before, after, next, all_filtered_out(before.item_id))
    } else {
        &&& after.stream matches Some(stream) && stream.is_copy_of(sources@[0])
        &&& after == (StreamService { stream: after.stream, streams: sources, ..before })
        &&& next.0 is Finished
        &&& next.1 is Loaded
    }
}

/// `after` is `before` with a group and the first of its candidates to play.
pub open spec fn takes_group(
    before: StreamService,
    after: StreamService,
    group: MediaId,
    title: String,
    candidates: Seq<Media>,
) -> bool {
    &&& after.group matches Some(g) && g.0 == group && g.1 == title && g.2@ == candidates
    &&& after.stream matches Some(stream) && stream.is_copy_of(candidates[0])
    &&& after == (StreamService { group: after.group, stream: after.stream, ..before })
}

/// How the loading of a service goes on after what it waited for has happened.
/// For a group, the candidates are its streams, then those of the groups behind
/// it. For any other item they are the streams of its root, the root itself where
/// it has none, as far as grouping and filter leave them.
pub open spec fn load_step(
    before: StreamService,
    after: StreamService,
    stage: LoadStage,
    event: LoadEvent,
    next: (LoadStage, LoadAction),
) -> bool {
    match (stage, event) {
        (LoadStage::Start, LoadEvent::Media(media)) => {
            &&& after == before
            &&& if media.kind == MediaKind::StreamGroup {
                &&& next.0 == (LoadStage::GroupStreams { group: media.id, title: media.title })
                &&& next.1 == (LoadAction::FindGroupStreams { group: media.id })
            } else {
                &&& next.0 is Root
                &&& next.1 is FindRoot
            }
        },
        (
            LoadStage::GroupStreams { group, title },
            LoadEvent::GroupStreams(candidates),
        ) => if candidates@.len() == 0 {
            load_fails(before, after, next, no_group_streams(group))
        } else {
            &&& after == before
            &&& next.0 == (LoadStage::LaterStreams { group, title, candidates })
            &&& next.1 == (LoadAction::FindLaterStreams { group })
        },
        (
            LoadStage::LaterStreams { group, title, candidates },
            LoadEvent::LaterStreams(later),
        ) => if (candidates@ + later@).len() == 0 {
            load_fails(before, after, next, no_group_streams(group))
        } else {
            &&& takes_group(before, after, group, title, candidates@ + later@)
            &&& next.0 is Finished
            &&& next.1 is Loaded
        },
        (LoadStage::Root, LoadEvent::Root { root, streams }) => {
            &&& after == before
            &&& next.0 is Sources
            &&& next.1 matches LoadAction::GroupSources { sources, show_ungrouped }
                && show_ungrouped == before.show_ungrouped && sources@ == (if streams@.len() == 0 {
                seq![root]
            } else {
                streams@
            })
        },
        (LoadStage::Sources, LoadEvent::Sources(sources)) => if before.has_filter_rules {
            &&& after == before
            &&& next.0 is Filtered
            &&& next.1 == (LoadAction::FilterSources { sources })
        } else {
            load_ends(before, after, sources, next)
        },
        (LoadStage::Filtered, LoadEvent::Sources(sources)) => load_ends(
            before,
            after,
            sources,
            next,
        ),
        _ => after == before && next.0 == stage && next.1 is Ignore,
    }
}

/// The streams behind references.
pub open spec fn pointed(v: Seq<&Media>) -> Seq<Media> {
    v.map_values(|m: &Media| *m)
}

/// A stream in 4K.
pub open spec fn is_4k(media: Media) -> bool {
    media.stream_info matches Some(info) && info.resolution_tag matches Some(tag) && tag@ == "4K"@
}

/// The streams with this id.
pub open spec fn with_id(streams: Seq<Media>, id: MediaId) -> Seq<Media> {
    streams.filter(|m: Media| m.id == id)
}

/// The streams below 4K, then those in 4K, each in their order.
pub open spec fn lower_first(streams: Seq<Media>) -> Seq<Media> {
    streams.filter(|m: Media| !is_4k(m)) + streams.filter(|m: Media| is_4k(m))
}

/// The key under which the preference of a device is kept.
pub open spec fn preference_key(item_id: MediaId, device_key: Seq<char>) -> Seq<char> {
    "pstream:"@ + item_id.hyphenated() + ":"@ + device_key
}

/// Writes the key of a preference.
pub fn write_preference_key(item_id: MediaId, device_key: &str) -> (r: String)
    ensures
        r@ == preference_key(item_id, device_key@),
{
    let mut r: String = "pstream:".to_owned();
    r.append(item_id.to_text().as_str());
    r.append(":");
    r.append(device_key);
    r
}

/// A preference to be kept.
#[derive(Debug)]
pub struct Preference {
    pub key: String,
    pub stream: MediaId,
    pub seconds: u64,
}

fn tagged_4k(media: &Media) -> (r: bool)
    ensures
        r == is_4k(*media),
{
    match &media.stream_info {
        Some(info) => match &info.resolution_tag {
            Some(tag) => same_text(tag.as_str(), "4K"),
            None => false,
        },
        None => false,
    }
}

/// References to all streams of a vector.
fn point_to_all<'a>(streams: &'a Vec<Media>) -> (r: Vec<&'a Media>)
    ensures
        pointed(r@) == streams@,
{
    let mut r: Vec<&'a Media> = Vec::new();
    let mut k: usize = 0;
    while k < streams.len()
        invariant
            k <= streams.len(),
            pointed(r@) =~= streams@.take(k as int),
        decreases streams.len() - k,
    {
        let ghost before = r@;
        r.push(&streams[k]);
        proof {
            assert(pointed(r@) =~= pointed(before).push(streams@[k as int]));
            assert(streams@.take(k + 1) =~= streams@.take(k as int).push(streams@[k as int]));
        }
        k += 1;
    }
    assert(streams@.take(k as int) =~= streams@);
    r
}

/// References to the streams with an id.
fn point_to_id<'a>(streams: &'a Vec<Media>, id: MediaId) -> (r: Vec<&'a Media>)
    ensures
        pointed(r@) == with_id(streams@, id),
{
    let mut r: Vec<&'a Media> = Vec::new();
    let mut k: usize = 0;
    proof {
        reveal(Seq::filter);
        assert(streams@.take(0) =~= Seq::<Media>::empty());
        assert(pointed(r@) =~= with_id(streams@.take(0), id));
    }
    while k < streams.len()
        invariant
            k <= streams.len(),
            pointed(r@) == with_id(streams@.take(k as int), id),
        decreases streams.len() - k,
    {
        let ghost before = r@;
        if streams[k].id == id {
            r.push(&streams[k]);
        }
        proof {
            reveal(Seq::filter);
            assert(streams@.take(k + 1).drop_last() =~= streams@.take(k as int));
            assert(streams@.take(k + 1).last() == streams@[k as int]);
            if streams@[k as int].id == id {
                assert(pointed(r@) =~= pointed(before).push(streams@[k as int]));
            }
        }
        k += 1;
    }
    assert(streams@.take(k as int) =~= streams@);
    r
}

/// The same references, with those to streams in 4K behind the others.
fn sort_lower_first<'a>(streams: Vec<&'a Media>) -> (r: Vec<&'a Media>)
    ensures
        pointed(r@) == lower_first(pointed(streams@)),
{
    let mut low: Vec<&'a Media> = Vec::new();
    let mut high: Vec<&'a Media> = Vec::new();
    let mut k: usize = 0;
    let ghost all = pointed(streams@);
    let ghost is_low = |m: Media| !is_4k(m);
    let ghost is_high = |m: Media| is_4k(m);
    proof {
        reveal(Seq::filter);
        assert(all.take(0) =~= Seq::<Media>::empty());
        assert(pointed(low@) =~= all.take(0).filter(is_low));
        assert(pointed(high@) =~= all.take(0).filter(is_high));
    }
    while k < streams.len()
        invariant
            k <= streams.len(),
            all == pointed(streams@),
            is_low == (|m: Media| !is_4k(m)),
            is_high == (|m: Media| is_4k(m)),
            pointed(low@) == all.take(k as int).filter(is_low),
            pointed(high@) == all.take(k as int).filter(is_high),
        decreases streams.len() - k,
    {
        let stream: &'a Media = streams[k];
        let ghost low_before = low@;
        let ghost high_before = high@;
        if tagged_4k(stream) {
            high.push(stream);
        } else {
            low.push(stream);
        }
        proof {
            reveal(Seq::filter);
            assert(all.take(k + 1).drop_last() =~= all.take(k as int));
            assert(all.take(k + 1).last() == *stream);
            if is_4k(*stream) {
                assert(pointed(high@) =~= pointed(high_before).push(*stream));
            } else {
                assert(pointed(low@) =~= pointed(low_before).push(*stream));
            }
        }
        k += 1;
    }
    assert(all.take(k as int) =~= all);
    let ghost low_all = low@;
    let ghost high_all = high@;
    low.append(&mut high);
    assert(pointed(low@) =~= pointed(low_all) + pointed(high_all));
    low
}

impl StreamService {
    /// A stream to play has been found.
    pub open spec fn is_loaded(self) -> bool {
        self.stream is Some
    }

    /// The stream to play.
    pub open spec fn chosen(self) -> Media {
        self.stream->0
    }

    /// Whether a stream to play has been found.
    pub fn has_stream(&self) -> (r: bool)
        ensures
            r == self.is_loaded(),
    {
        self.stream.is_some()
    }

    /// A service without streams.
    pub fn new(cfg: StreamServiceConfig) -> (r: StreamService)
        ensures
            r.item_id == cfg.item_id,
            r.requested_id == cfg.requested_id,
            r.show_ungrouped == cfg.show_ungrouped,
            r.has_filter_rules == cfg.has_filter_rules,
            r.prefer_lower_res_for_transcode == cfg.prefer_lower_res_for_transcode,
            r.group is None,
            r.stream is None,
            r.streams@ == Seq::<Media>::empty(),
    {
        StreamService {
            item_id: cfg.item_id,
            requested_id: cfg.requested_id,
            show_ungrouped: cfg.show_ungrouped,
            has_filter_rules: cfg.has_filter_rules,
            prefer_lower_res_for_transcode: cfg.prefer_lower_res_for_transcode,
            group: None,
            stream: None,
            streams: Vec::new(),
        }
    }

    fn finish_load(&mut self, sources: Vec<Media>) -> (next: (LoadStage, LoadAction))
        ensures
            load_ends(*old(self), *final(self), sources, next),
    {
        if sources.is_empty() {
            let text: String = text_with_id(
                "no playable sources for ",
                self.item_id,
                " (filtered out by grouping or stream policy)",
            );
            return (LoadStage::Finished, LoadAction::Fail(text));
        }
        self.stream = Some(sources[0].clone());
        self.streams = sources;
        (LoadStage::Finished, LoadAction::Loaded)
    }

    /// Takes the candidates of a group and of the groups behind it.
    fn resolve_stream_group(&mut self, group: MediaId, title: String, candidates: Vec<Media>)
        requires
            candidates@.len() > 0,
        ensures
            takes_group(*old(self), *final(self), group, title, candidates@),
    {
        self.stream = Some(candidates[0].clone());
        self.group = Some((group, title, candidates));
    }

    /// Loads the streams of the item that was asked for: from the stage of the
    /// loading and what happened to the stage that follows and what is to be done.
    /// It starts at [`LoadStage::Start`].
    pub fn load(&mut self, stage: LoadStage, event: LoadEvent) -> (next: (LoadStage, LoadAction))
        ensures
            load_step(*old(self), *final(self), stage, event, next),
    {
        match (stage, event) {
            (LoadStage::Start, LoadEvent::Media(media)) => {
                if media.kind == MediaKind::StreamGroup {
                    (
                        LoadStage::GroupStreams { group: media.id, title: media.title },
                        LoadAction::FindGroupStreams { group: media.id },
                    )
                } else {
                    (LoadStage::Root, LoadAction::FindRoot)
                }
            },
            (LoadStage::GroupStreams { group, title }, LoadEvent::GroupStreams(candidates)) => {
                if candidates.is_empty() {
                    let text: String = text_and_id("no streams available for group ", group);
                    (LoadStage::Finished, LoadAction::Fail(text))
                } else {
                    (
                        LoadStage::LaterStreams { group, title, candidates },
                        LoadAction::FindLaterStreams { group },
                    )
                }
            },
            (
                LoadStage::LaterStreams { group, title, candidates },
                LoadEvent::LaterStreams(later),
            ) => {
                let mut all: Vec<Media> = candidates;
                let mut rest: Vec<Media> = later;
                all.append(&mut rest);
                if all.is_empty() {
                    let text: String = text_and_id("no streams available for group ", group);
                    return (LoadStage::Finished, LoadAction::Fail(text));
                }
                self.resolve_stream_group(group, title, all);
                (LoadStage::Finished, LoadAction::Loaded)
            },
            (LoadStage::Root, LoadEvent::Root { root, streams }) => {
                let sources: Vec<Media> = if streams.is_empty() {
                    let mut own: Vec<Media> = Vec::new();
                    own.push(root);
                    assert(own@ =~= seq![root]);
                    own
                } else {
                    streams
                };
                (
                    LoadStage::Sources,
                    LoadAction::GroupSources { sources, show_ungrouped: self.show_ungrouped },
                )
            },
            (LoadStage::Sources, LoadEvent::Sources(sources)) => {
                if self.has_filter_rules {
                    (LoadStage::Filtered, LoadAction::FilterSources { sources })
                } else {
                    self.finish_load(sources)
                }
            },
            (LoadStage::Filtered, LoadEvent::Sources(sources)) => self.finish_load(sources),
            (stage, _) => (stage, LoadAction::Ignore),
        }
    }

    /// The stream to play.
    pub fn candidate(&self) -> (r: &Media)
        requires
            self.is_loaded(),
        ensures
            *r == self.chosen(),
    {
        self.stream.as_ref().unwrap()
    }

    /// The id, the title and the candidates of the group, if one was asked for.
    pub fn group(&self) -> (r: Option<&(MediaId, String, Vec<Media>)>)
        ensures
            match r {
                Some(g) => self.group == Some(*g),
                None => self.group is None,
            },
    {
        self.group.as_ref()
    }

    /// The id under which a client sees a source: that of the group, else that of
    /// the stream that was probed in the end.
    pub open spec fn id_for(self, effective: Media) -> MediaId {
        match self.group {
            Some(g) => g.0,
            None => effective.id,
        }
    }

    /// The id under which a client sees the first source.
    pub open spec fn facing_id(self) -> MediaId {
        match self.group {
            Some(g) => g.0,
            None => self.chosen().id,
        }
    }

    /// The id of the source that the client sees first.
    pub fn client_facing_id(&self) -> (r: MediaId)
        requires
            self.group is Some || self.is_loaded(),
        ensures
            r == self.facing_id(),
    {
        match &self.group {
            Some(g) => g.0,
            None => self.candidate().id,
        }
    }

    /// The id of the source that a client sees: that of the group, else that of
    /// the stream that was probed in the end.
    pub fn source_id_for(&self, effective: &Media) -> (r: MediaId)
        ensures
            r == self.id_for(*effective),
    {
        match &self.group {
            Some(g) => g.0,
            None => effective.id,
        }
    }

    /// The name of the source that a client sees.
    pub fn source_name_for(&self, effective: &Media) -> (r: String)
        ensures
            r@ == (match self.group {
                Some(g) => g.1@,
                None => effective.title@,
            }),
    {
        match &self.group {
            Some(g) => g.1.clone(),
            None => effective.title.clone(),
        }
    }

    /// The candidates of the group.
    pub open spec fn group_candidates(self) -> Seq<Media> {
        match self.group {
            Some(g) => g.2@,
            None => Seq::empty(),
        }
    }

    fn candidates<'a>(&'a self) -> (r: Vec<&'a Media>)
        ensures
            pointed(r@) == self.group_candidates(),
    {
        match &self.group {
            Some(g) => point_to_all(&g.2),
            None => {
                let r: Vec<&'a Media> = Vec::new();
                assert(pointed(r@) =~= Seq::<Media>::empty());
                r
            },
        }
    }

    /// The client named one of the streams, not the item.
    pub open spec fn names_stream(self) -> bool {
        self.requested_id matches Some(id) && id != self.item_id && position_of(self.streams@, id)
            is Some
    }

    /// The streams that are offered to the client: the one it named; the first
    /// where it named the item or an unknown stream; all of them where it named
    /// none.
    pub open spec fn offered(self) -> Seq<Media> {
        let all = if self.names_stream() {
            with_id(self.streams@, self.requested_id->0)
        } else if self.requested_id is Some && self.streams@.len() > 0 {
            self.streams@.take(1)
        } else {
            self.streams@
        };
        if self.prefer_lower_res_for_transcode && !self.names_stream() {
            lower_first(all)
        } else {
            all
        }
    }

    /// Chooses the streams that are offered to the client and those that a probe
    /// may fall back to.
    pub fn select_streams<'a>(&'a self) -> (r: StreamSelection<'a>)
        requires
            self.group is Some ==> self.is_loaded(),
        ensures
            r.specific_requested == (self.group is Some || self.names_stream()),
            match self.group {
                Some(_) => {
                    &&& pointed(r.candidates@) == seq![self.chosen()]
                    &&& pointed(r.probe_pool@) == self.group_candidates()
                    &&& !r.restrict_resolution
                    &&& !r.probe_only_first
                },
                None => {
                    &&& pointed(r.candidates@) == self.offered()
                    &&& pointed(r.probe_pool@) == self.streams@
                    &&& r.restrict_resolution
                    &&& r.probe_only_first == self.requested_id is None
                },
            },
    {
        if self.group.is_some() {
            let mut candidates: Vec<&'a Media> = Vec::new();
            candidates.push(self.candidate());
            assert(pointed(candidates@) =~= seq![self.chosen()]);
            return StreamSelection {
                candidates,
                probe_pool: self.candidates(),
                restrict_resolution: false,
                probe_only_first: false,
                specific_requested: true,
            };
        }
        let named: Option<MediaId> = match self.requested_id {
            Some(id) => if id != self.item_id && find_stream(&self.streams, id).is_some() {
                Some(id)
            } else {
                None
            },
            None => None,
        };
        let specific: bool = named.is_some();
        let mut candidates: Vec<&'a Media> = match named {
            Some(id) => point_to_id(&self.streams, id),
            None => point_to_all(&self.streams),
        };
        if !specific && self.requested_id.is_some() && !self.streams.is_empty() {
            let ghost all = candidates@;
            candidates.truncate(1);
            assert(pointed(candidates@) =~= pointed(all).take(1));
        }
        if self.prefer_lower_res_for_transcode && !specific {
            candidates = sort_lower_first(candidates);
        }
        StreamSelection {
            candidates,
            probe_pool: point_to_all(&self.streams),
            restrict_resolution: true,
            probe_only_first: self.requested_id.is_none(),
            specific_requested: specific,
        }
    }

    /// The preference of a device that is to be kept: the stream of a group that
    /// it plays. Nothing is kept where no group was asked for.
    pub fn save_preference(&self, device_key: &str) -> (r: Option<Preference>)
        requires
            self.group is Some ==> self.is_loaded(),
        ensures
            match r {
                Some(p) => {
                    &&& self.group is Some
                    &&& p.key@ == preference_key(self.item_id, device_key@)
                    &&& p.stream == self.chosen().id
                    &&& p.seconds == PREFERENCE_SECS
                },
                None => self.group is None,
            },
    {
        if self.group.is_none() {
            return None;
        }
        Some(
            Preference {
                key: write_preference_key(self.item_id, device_key),
                stream: self.candidate().id,
                seconds: PREFERENCE_SECS,
            },
        )
    }
}

// ---------------------------------------------------------------------------
// Looking up one stream
// ---------------------------------------------------------------------------

/// A request for one stream.
#[derive(Debug)]
pub struct LookupRequest {
    pub item_id: MediaId,
    pub requested_id: Option<MediaId>,
    pub device_key: Option<String>,
}

/// What a lookup waits for.
#[derive(Debug)]
pub enum LookupStage {
    Start,
    Media,
    GroupStreams { group: MediaId },
    Streams,
    /// The preference of the device, for one of these streams.
    Preference { streams: Vec<Media> },
    Finished,
}

/// What happened during a lookup.
#[derive(Debug)]
pub enum LookupEvent {
    Begin,
    Media(Option<Media>),
    Streams(Vec<Media>),
    Preference(Option<MediaId>),
}

/// What a lookup asks for next.
#[derive(Debug)]
pub enum LookupAction {
    FindMedia { id: MediaId },
    /// Look for the streams of a group, for the item of the request.
    FindGroupStreams { group: MediaId },
    FindStreams { of: MediaId },
    ReadPreference { key: String },
    Found(Media),
    Fail(String),
    /// The event is not the one that was waited for: nothing is to be done.
    Ignore,
}

/// What a lookup starts from: what the client named, else the item.
pub open spec fn lookup_id(request: LookupRequest) -> MediaId {
    value_or(request.requested_id, request.item_id)
}

/// A lookup that ends with this stream.
pub open spec fn finds(next: (LookupStage, LookupAction), media: Media) -> bool {
    next.0 is Finished && next.1 == LookupAction::Found(media)
}

/// A lookup that fails with this text.
pub open spec fn lookup_fails(next: (LookupStage, LookupAction), text: Seq<char>) -> bool {
    next.0 is Finished && (next.1 matches LookupAction::Fail(t) && t@ == text)
}

/// A lookup that ends with the preferred stream, else with the first.
pub open spec fn finds_preferred(
    request: LookupRequest,
    streams: Seq<Media>,
    preferred: Option<MediaId>,
    next: (LookupStage, LookupAction),
) -> bool {
    match source_choice(streams, preferred) {
        Some(k) => finds(next, streams[k]),
        None => lookup_fails(next, nothing_playable(request.item_id)),
    }
}

/// How a lookup goes on with an item: a group leads to its first stream; a film,
/// an episode and a track lead to their streams; anything else is the stream.
pub open spec fn dispatch_step(media: Media, next: (LookupStage, LookupAction)) -> bool {
    match media.kind {
        MediaKind::StreamGroup => {
            &&& next.0 == (LookupStage::GroupStreams { group: media.id })
            &&& next.1 == (LookupAction::FindGroupStreams { group: media.id })
        },
        MediaKind::Movie | MediaKind::Episode | MediaKind::Track => {
            &&& next.0 is Streams
            &&& next.1 == (LookupAction::FindStreams { of: media.id })
        },
        _ => finds(next, media),
    }
}

/// How a lookup goes on after what it waited for has happened.
pub open spec fn lookup_step(
    request: LookupRequest,
    stage: LookupStage,
    event: LookupEvent,
    next: (LookupStage, LookupAction),
) -> bool {
    match (stage, event) {
        (LookupStage::Start, LookupEvent::Begin) => {
            &&& next.0 is Media
            &&& next.1 == (LookupAction::FindMedia { id: lookup_id(request) })
        },
        (LookupStage::Media, LookupEvent::Media(found)) => match found {
            None => lookup_fails(next, stream_not_found(lookup_id(request))),
            Some(media) => dispatch_step(media, next),
        },
        (LookupStage::GroupStreams { group }, LookupEvent::Streams(streams)) => if streams@.len()
            == 0 {
            lookup_fails(next, no_group_streams(group))
        } else {
            finds(next, streams@[0])
        },
        (LookupStage::Streams, LookupEvent::Streams(streams)) => {
            if request.requested_id matches Some(id) && id != request.item_id {
                match position_of(streams@, request.requested_id->0) {
                    Some(k) => finds(next, streams@[k]),
                    None => lookup_fails(next, stream_not_found(request.requested_id->0)),
                }
            } else {
                match request.device_key {
                    Some(device) => {
                        &&& next.0 == (LookupStage::Preference { streams })
                        &&& next.1 matches LookupAction::ReadPreference { key } && key@
                            == preference_key(request.item_id, device@)
                    },
                    None => finds_preferred(request, streams@, None, next),
                }
            }
        },
        (LookupStage::Preference { streams }, LookupEvent::Preference(saved)) => finds_preferred(
            request,
            streams@,
            saved,
            next,
        ),
        _ => next.0 == stage && next.1 is Ignore,
    }
}

fn take_preferred(
    request: &LookupRequest,
    streams: Vec<Media>,
    preferred: Option<MediaId>,
) -> (next: (LookupStage, LookupAction))
    ensures
        finds_preferred(*request, streams@, preferred, next),
{
    match choose_source(&streams, preferred) {
        Some(k) => {
            let mut rest: Vec<Media> = streams;
            (LookupStage::Finished, LookupAction::Found(rest.swap_remove(k)))
        },
        None => (
            LookupStage::Finished,
            LookupAction::Fail(text_and_id("no playable sources for ", request.item_id)),
        ),
    }
}

impl StreamService {
    fn dispatch_lookup(media: Media) -> (next: (LookupStage, LookupAction))
        ensures
            dispatch_step(media, next),
    {
        match media.kind {
            MediaKind::StreamGroup => (
                LookupStage::GroupStreams { group: media.id },
                LookupAction::FindGroupStreams { group: media.id },
            ),
            MediaKind::Movie | MediaKind::Episode | MediaKind::Track => (
                LookupStage::Streams,
                LookupAction::FindStreams { of: media.id },
            ),
            _ => (LookupStage::Finished, LookupAction::Found(media)),
        }
    }

    /// Looks up the one stream that a request leads to: from the stage of the
    /// lookup and what happened to the stage that follows and what is to be done.
    /// It starts at [`LookupStage::Start`].
    pub fn lookup(request: &LookupRequest, stage: LookupStage, event: LookupEvent) -> (next: (
        LookupStage,
        LookupAction,
    ))
        ensures
            lookup_step(*request, stage, event, next),
    {
        match (stage, event) {
            (LookupStage::Start, LookupEvent::Begin) => (
                LookupStage::Media,
                LookupAction::FindMedia {
                    id: value_or_default(request.requested_id, request.item_id),
                },
            ),
            (LookupStage::Media, LookupEvent::Media(found)) => match found {
                None => {
                    let id: MediaId = value_or_default(request.requested_id, request.item_id);
                    (
                        LookupStage::Finished,
                        LookupAction::Fail(text_and_id("stream not found: ", id)),
                    )
                },
                Some(media) => Self::dispatch_lookup(media),
            },
            (LookupStage::GroupStreams { group }, LookupEvent::Streams(mut streams)) => {
                if streams.is_empty() {
                    (
                        LookupStage::Finished,
                        LookupAction::Fail(text_and_id("no streams available for group ", group)),
                    )
                } else {
                    let first: Media = streams.swap_remove(0);
                    (LookupStage::Finished, LookupAction::Found(first))
                }
            },
            (LookupStage::Streams, LookupEvent::Streams(mut streams)) => {
                let named: Option<MediaId> = match request.requested_id {
                    Some(id) => if id != request.item_id {
                        Some(id)
                    } else {
                        None
                    },
                    None => None,
                };
                match (named, &request.device_key) {
                    (Some(id), _) => match find_stream(&streams, id) {
                        Some(k) => {
                            let stream: Media = streams.swap_remove(k);
                            (LookupStage::Finished, LookupAction::Found(stream))
                        },
                        None => (
                            LookupStage::Finished,
                            LookupAction::Fail(text_and_id("stream not found: ", id)),
                        ),
                    },
                    (None, Some(device)) => {
                        let key: String = write_preference_key(request.item_id, device.as_str());
                        (
                            LookupStage::Preference { streams },
                            LookupAction::ReadPreference { key },
                        )
                    },
                    (None, None) => take_preferred(request, streams, None),
                }
            },
            (LookupStage::Preference { streams }, LookupEvent::Preference(saved)) => take_preferred(
                request,
                streams,
                saved,
            ),
            (stage, _) => (stage, LookupAction::Ignore),
        }
    }
}

// ---------------------------------------------------------------------------
// Laws
// ---------------------------------------------------------------------------

/// A client that plays the stream it is shown first sees the same id for it
/// before and after the probe.
pub proof fn first_sources_keep_their_id(service: StreamService)
    requires
        service.is_loaded(),
    ensures
        service.id_for(service.chosen()) == service.facing_id(),
{
}

/// A service that has been loaded has a stream to play.
pub proof fn loaded_services_have_a_stream(
    before: StreamService,
    after: StreamService,
    stage: LoadStage,
    event: LoadEvent,
    next: (LoadStage, LoadAction),
)
    requires
        load_step(before, after, stage, event, next),
    ensures
        next.1 is Loaded ==> after.is_loaded(),
        next.1 !is Loaded ==> after == before,
{
}

/// A group is played through its own first stream, before those of the groups
/// behind it.
pub proof fn groups_play_their_first_stream(
    before: StreamService,
    after: StreamService,
    group: MediaId,
    title: String,
    candidates: Vec<Media>,
    later: Vec<Media>,
    next: (LoadStage, LoadAction),
)
    requires
        candidates@.len() > 0,
        load_step(
            before,
            after,
            (LoadStage::LaterStreams { group, title, candidates }),
            LoadEvent::LaterStreams(later),
            next,
        ),
    ensures
        after.chosen().is_copy_of(candidates@[0]),
        after.group_candidates() == candidates@ + later@,
{
}

/// How many events the loading of a service can still wait for.
pub open spec fn load_events_left(stage: LoadStage) -> nat {
    match stage {
        LoadStage::Start => 4,
        LoadStage::Root => 3,
        LoadStage::GroupStreams { .. } => 2,
        LoadStage::Sources => 2,
        LoadStage::LaterStreams { .. } => 1,
        LoadStage::Filtered => 1,
        LoadStage::Finished => 0,
    }
}

/// Every event that is waited for brings the loading nearer to its end.
pub proof fn loading_ends(
    before: StreamService,
    after: StreamService,
    stage: LoadStage,
    event: LoadEvent,
    next: (LoadStage, LoadAction),
)
    requires
        load_step(before, after, stage, event, next),
    ensures
        next.1 is Ignore ==> next.0 == stage,
        next.1 !is Ignore ==> load_events_left(next.0) < load_events_left(stage),
        next.1 !is Ignore ==> (next.0 is Finished <==> next.1 is Loaded || next.1 is Fail),
{
}

/// How many events a lookup can still wait for.
pub open spec fn lookup_events_left(stage: LookupStage) -> nat {
    match stage {
        LookupStage::Start => 4,
        LookupStage::Media => 3,
        LookupStage::Streams => 2,
        LookupStage::GroupStreams { .. } => 1,
        LookupStage::Preference { .. } => 1,
        LookupStage::Finished => 0,
    }
}

/// Every event that is waited for brings a lookup nearer to its end.
pub proof fn lookups_end(
    request: LookupRequest,
    stage: LookupStage,
    event: LookupEvent,
    next: (LookupStage, LookupAction),
)
    requires
        lookup_step(request, stage, event, next),
    ensures
        next.1 is Ignore ==> next.0 == stage,
        next.1 !is Ignore ==> lookup_events_left(next.0) < lookup_events_left(stage),
        next.1 !is Ignore ==> (next.0 is Finished <==> next.1 is Found || next.1 is Fail),
{
}

/// No two items or devices share a preference.
pub proof fn preference_keys_are_distinct(
    a: MediaId,
    device_a: Seq<char>,
    b: MediaId,
    device_b: Seq<char>,
)
    requires
        preference_key(a, device_a) == preference_key(b, device_b),
    ensures
        a == b,
        device_a == device_b,
{
    reveal_strlit("pstream:");
    reveal_strlit(":");
    let x = preference_key(a, device_a);
    let y = preference_key(b, device_b);
    assert(a.hyphenated().len() == 36);
    assert(b.hyphenated().len() == 36);
    assert(x.subrange(8, 44) =~= a.hyphenated());
    assert(y.subrange(8, 44) =~= b.hyphenated());
    crate::ids::ids_have_distinct_texts(a, b);
    assert(x.skip(45) =~= device_a);
    assert(y.skip(45) =~= device_b);
}

/// A preference that was kept is found again: the lookup of the item on the same
/// device asks for the key under which it was kept, and ends with the stream that
/// was kept where the item still has it.
pub proof fn kept_preferences_are_found_again(
    kept: Preference,
    item_id: MediaId,
    device_key: Seq<char>,
    request: LookupRequest,
    streams: Vec<Media>,
    k: int,
    asked: (LookupStage, LookupAction),
    found: (LookupStage, LookupAction),
)
    requires
        kept.key@ == preference_key(item_id, device_key),
        request.item_id == item_id,
        request.requested_id is None || request.requested_id == Some(item_id),
        request.device_key matches Some(device) && device@ == device_key,
        lookup_step(request, LookupStage::Streams, LookupEvent::Streams(streams), asked),
        0 <= k < streams@.len(),
        streams@[k].id == kept.stream,
        lookup_step(request, asked.0, LookupEvent::Preference(Some(kept.stream)), found),
    ensures
        asked.1 matches LookupAction::ReadPreference { key } && key@ == kept.key@,
        found.1 matches LookupAction::Found(stream) && stream.id == kept.stream,
{
    wanted_streams_are_chosen(streams@, kept.stream, k);
}

/// A stream that a client names is the one it gets, or none.
pub proof fn named_streams_are_found(
    request: LookupRequest,
    id: MediaId,
    streams: Vec<Media>,
    next: (LookupStage, LookupAction),
)
    requires
        request.requested_id == Some(id),
        id != request.item_id,
        lookup_step(request, LookupStage::Streams, LookupEvent::Streams(streams), next),
    ensures
        match next.1 {
            LookupAction::Found(stream) => stream.id == id,
            LookupAction::Fail(_) => forall|j: int|
                0 <= j < streams@.len() ==> (#[trigger] streams@[j]).id != id,
            _ => false,
        },
{
    positions_are_first(streams@, id);
}

/// Streams below 4K come before those in 4K, and no stream is lost.
pub proof fn lower_resolutions_come_first(streams: Seq<Media>)
    ensures
        lower_first(streams).to_multiset() == streams.to_multiset(),
        forall|i: int, j: int|
            0 <= i < j < lower_first(streams).len() && is_4k(#[trigger] lower_first(streams)[i])
                ==> is_4k(#[trigger] lower_first(streams)[j]),
{
    broadcast use vstd::seq_lib::group_to_multiset_ensures;

    let low = streams.filter(|m: Media| !is_4k(m));
    let high = streams.filter(|m: Media| is_4k(m));
    lemma_partition(streams);
    assert forall|i: int, j: int|
        0 <= i < j < lower_first(streams).len() && is_4k(
            #[trigger] lower_first(streams)[i],
        ) implies is_4k(#[trigger] lower_first(streams)[j]) by {
        if i < low.len() {
            streams.lemma_filter_pred(|m: Media| !is_4k(m), i);
        }
        streams.lemma_filter_pred(|m: Media| is_4k(m), j - low.len());
    }
}

proof fn lemma_partition(streams: Seq<Media>)
    ensures
        lower_first(streams).to_multiset() == streams.to_multiset(),
    decreases streams.len(),
{
    broadcast use vstd::seq_lib::group_to_multiset_ensures;

    reveal(Seq::filter);
    if streams.len() > 0 {
        let head = streams.drop_last();
        let last = streams.last();
        lemma_partition(head);
        let low = head.filter(|m: Media| !is_4k(m));
        let high = head.filter(|m: Media| is_4k(m));
        assert(streams =~= head.push(last));
        if is_4k(last) {
            assert(lower_first(streams) =~= lower_first(head).push(last));
        } else {
            assert(lower_first(streams) =~= low.push(last) + high);
            vstd::seq_lib::lemma_multiset_commutative(low.push(last), high);
            vstd::seq_lib::lemma_multiset_commutative(low, high);
            assert(low.push(last).to_multiset() =~= low.to_multiset().insert(last));
            assert((low.push(last) + high).to_multiset() =~= (low + high).to_multiset().insert(
                last,
            ));
        }
    } else {
        assert(lower_first(streams) =~= streams);
    }
}

/// References keep the places of what they point to.
pub proof fn references_keep_their_places(v: Seq<&Media>)
    ensures
        pointed(v).len() == v.len(),
        forall|k: int| 0 <= k < v.len() ==> #[trigger] pointed(v)[k] == *v[k],
{
}

/// A stream is found by its id, at the first place where it stands.
pub proof fn streams_are_found_by_their_id(streams: &Vec<Media>, id: MediaId, r: Option<usize>)
    requires
        call_ensures(find_stream, (streams, id), r),
    ensures
        r matches Some(k) ==> k < streams@.len() && streams@[k as int].id == id && forall|j: int|
            0 <= j < k ==> (#[trigger] streams@[j]).id != id,
        r is None ==> forall|j: int| 0 <= j < streams@.len() ==> (#[trigger] streams@[j]).id != id,
{
    positions_are_first(streams@, id);
}

/// The stream that is wanted is chosen where it is there, and the first where it is
/// not or none is wanted. Only without streams is none chosen.
pub proof fn sources_are_chosen_by_their_id(
    streams: &Vec<Media>,
    wanted: Option<MediaId>,
    r: Option<usize>,
)
    requires
        call_ensures(choose_source, (streams, wanted), r),
    ensures
        r is None <==> streams@.len() == 0,
        r matches Some(k) ==> k < streams@.len(),
        wanted is None ==> (r matches Some(k) ==> k == 0),
        wanted matches Some(id) ==> r matches Some(k) ==> {
            &&& (exists|j: int| 0 <= j < streams@.len() && (#[trigger] streams@[j]).id == id)
                ==> streams@[k as int].id == id && forall|j: int|
                0 <= j < k ==> (#[trigger] streams@[j]).id != id
            &&& (forall|j: int| 0 <= j < streams@.len() ==> (#[trigger] streams@[j]).id != id)
                ==> k == 0
        },
{
    if let Some(id) = wanted {
        positions_are_first(streams@, id);
    }
}

/// A new service asks for what it was made for and has no streams yet.
pub proof fn new_services_ask_for_what_they_were_made_for(
    cfg: StreamServiceConfig,
    r: StreamService,
)
    requires
        call_ensures(StreamService::new, (cfg,), r),
    ensures
        r.item_id == cfg.item_id,
        r.requested_id == cfg.requested_id,
        r.show_ungrouped == cfg.show_ungrouped,
        r.has_filter_rules == cfg.has_filter_rules,
        r.prefer_lower_res_for_transcode == cfg.prefer_lower_res_for_transcode,
        r.group is None && r.stream is None && r.streams@.len() == 0,
{
}

/// All streams of an item are handed on to the grouping, in their order. An item
/// without streams is its own only source.
pub proof fn all_streams_are_grouped(
    before: StreamService,
    after: StreamService,
    root: Media,
    streams: Vec<Media>,
    next: (LoadStage, LoadAction),
)
    requires
        load_step(before, after, LoadStage::Root, (LoadEvent::Root { root, streams }), next),
    ensures
        after == before,
        next.0 is Sources,
        next.1 matches LoadAction::GroupSources { sources, show_ungrouped } && {
            &&& show_ungrouped == before.show_ungrouped
            &&& streams@.len() > 0 ==> sources@.len() == streams@.len() && forall|k: int|
                0 <= k < streams@.len() ==> #[trigger] sources@[k] == streams@[k]
            &&& streams@.len() == 0 ==> sources@.len() == 1 && sources@[0] == root
        },
{
}

/// What the grouping leaves is filtered exactly if there are rules, and all of it
/// is. What is left then are the streams of the service, the first of them to be
/// played. Where nothing is left the loading fails and the service stays.
pub proof fn what_is_left_is_loaded(
    before: StreamService,
    after: StreamService,
    stage: LoadStage,
    sources: Vec<Media>,
    next: (LoadStage, LoadAction),
)
    requires
        stage is Sources || stage is Filtered,
        load_step(before, after, stage, LoadEvent::Sources(sources), next),
    ensures
        stage is Sources && before.has_filter_rules ==> after == before && next.0 is Filtered && (
        next.1 matches LoadAction::FilterSources { sources: handed } && handed@ == sources@),
        (stage is Filtered || !before.has_filter_rules) && sources@.len() > 0 ==> {
            &&& next.0 is Finished && next.1 is Loaded
            &&& after.streams@ == sources@
            &&& after.stream matches Some(stream) && stream.is_copy_of(sources@[0])
            &&& after.group == before.group && after.item_id == before.item_id
            &&& after.requested_id == before.requested_id
            &&& after.show_ungrouped == before.show_ungrouped
            &&& after.has_filter_rules == before.has_filter_rules
            &&& after.prefer_lower_res_for_transcode == before.prefer_lower_res_for_transcode
        },
        (stage is Filtered || !before.has_filter_rules) && sources@.len() == 0 ==> {
            &&& after == before
            &&& next.0 is Finished
            &&& next.1 matches LoadAction::Fail(t) && t@ == "no playable sources for "@
                + before.item_id.hyphenated() + " (filtered out by grouping or stream policy)"@
        },
{
}

/// A group is loaded with all its streams and all those of the groups behind it, in
/// this order, and under its own id and title. A group without streams fails. Any
/// other item is loaded through its root.
pub proof fn groups_are_loaded_with_all_their_streams(
    before: StreamService,
    after: StreamService,
    stage: LoadStage,
    event: LoadEvent,
    next: (LoadStage, LoadAction),
)
    requires
        load_step(before, after, stage, event, next),
    ensures
        stage is Start ==> (event matches LoadEvent::Media(media) ==> after == before && if media.kind
            == MediaKind::StreamGroup {
            (next.1 matches LoadAction::FindGroupStreams { group } && group == media.id) && (
            next.0 matches LoadStage::GroupStreams { group, title } && group == media.id && title
                == media.title)
        } else {
            next.0 is Root && next.1 is FindRoot
        }),
        stage matches LoadStage::GroupStreams { group, title } ==> event
            matches LoadEvent::GroupStreams(candidates) ==> after == before && if candidates@.len()
            == 0 {
            next.0 is Finished && (next.1 matches LoadAction::Fail(t) && t@
                == "no streams available for group "@ + group.hyphenated())
        } else {
            (next.1 matches LoadAction::FindLaterStreams { group: asked } && asked == group) && (
            next.0 matches LoadStage::LaterStreams {
                group: kept,
                title: named,
                candidates: held,
            } && kept == group && named == title && held@ == candidates@)
        },
        stage matches LoadStage::LaterStreams { group, title, candidates } ==> event
            matches LoadEvent::LaterStreams(later) ==> if candidates@.len() + later@.len() == 0 {
            after == before && next.0 is Finished && (next.1 matches LoadAction::Fail(t) && t@
                == "no streams available for group "@ + group.hyphenated())
        } else {
            &&& next.0 is Finished && next.1 is Loaded
            &&& after.group matches Some(g) && g.0 == group && g.1 == title && g.2@ == candidates@
                + later@
            &&& after.stream matches Some(stream) && stream.is_copy_of(
                if candidates@.len() > 0 {
                    candidates@[0]
                } else {
                    later@[0]
                },
            )
            &&& after.streams == before.streams && after.item_id == before.item_id
            &&& after.requested_id == before.requested_id
            &&& after.show_ungrouped == before.show_ungrouped
            &&& after.has_filter_rules == before.has_filter_rules
            &&& after.prefer_lower_res_for_transcode == before.prefer_lower_res_for_transcode
        },
        next.1 is Ignore <==> !(stage is Start && event is Media) && !(stage is GroupStreams
            && event is GroupStreams) && !(stage is LaterStreams && event is LaterStreams) && !(
        stage is Root && event is Root) && !((stage is Sources || stage is Filtered)
            && event is Sources),
        next.1 is Ignore ==> next.0 == stage && after == before,
{
    if let LoadStage::LaterStreams { group, title, candidates } = stage {
        if let LoadEvent::LaterStreams(later) = event {
            let all = candidates@ + later@;
            if candidates@.len() > 0 {
                assert(all[0] == candidates@[0]);
            } else if later@.len() > 0 {
                assert(all[0] == later@[0]);
            }
        }
    }
}

/// What a service says of itself: whether it has a stream, which it is, and the
/// group that was asked for.
pub proof fn services_tell_what_they_play(
    service: &StreamService,
    loaded: bool,
    stream: &Media,
    group: Option<&(MediaId, String, Vec<Media>)>,
)
    requires
        service.stream is Some,
        call_ensures(StreamService::has_stream, (service,), loaded),
        call_ensures(StreamService::candidate, (service,), stream),
        call_ensures(StreamService::group, (service,), group),
    ensures
        loaded,
        service.stream == Some(*stream),
        group is Some <==> service.group is Some,
        group matches Some(g) ==> service.group == Some(*g),
{
}

/// A service without a stream says so.
pub proof fn empty_services_have_no_stream(service: &StreamService, loaded: bool)
    requires
        call_ensures(StreamService::has_stream, (service,), loaded),
    ensures
        loaded <==> service.stream is Some,
{
}

/// Under a group a client sees every source by the id and the title of the group,
/// and otherwise each by its own.
pub proof fn groups_hide_their_streams(
    service: &StreamService,
    effective: &Media,
    facing: MediaId,
    id: MediaId,
    name: String,
)
    requires
        service.stream is Some,
        call_ensures(StreamService::client_facing_id, (service,), facing),
        call_ensures(StreamService::source_id_for, (service, effective), id),
        call_ensures(StreamService::source_name_for, (service, effective), name),
    ensures
        service.group matches Some(g) ==> facing == g.0 && id == g.0 && name@ == g.1@,
        service.group is None ==> facing == service.stream->0.id && id == effective.id && name@
            == effective.title@,
{
}

/// A client that asks for a group is offered the stream that is to be played, and a
/// probe may fall back to all candidates of the group.
pub proof fn groups_offer_the_stream_to_play<'a>(
    service: &'a StreamService,
    r: StreamSelection<'a>,
)
    requires
        service.group is Some,
        service.stream is Some,
        call_ensures(StreamService::select_streams, (service,), r),
    ensures
        r.candidates@.len() == 1 && *r.candidates@[0] == service.stream->0,
        service.group matches Some(g) ==> r.probe_pool@.len() == g.2@.len() && forall|k: int|
            0 <= k < g.2@.len() ==> *(#[trigger] r.probe_pool@[k]) == g.2@[k],
        !r.restrict_resolution,
        !r.probe_only_first,
        r.specific_requested,
{
    let shown = pointed(r.candidates@);
    assert(shown.len() == 1 && shown[0] == service.stream->0);
    if let Some(g) = service.group {
        let pool = pointed(r.probe_pool@);
        assert(pool == g.2@);
        assert forall|k: int| 0 <= k < g.2@.len() implies *(#[trigger] r.probe_pool@[k])
            == g.2@[k] by {
            assert(pool[k] == *r.probe_pool@[k]);
        }
    }
}

/// A client that names no group is offered what it names: the stream with the id it
/// gives, the first where it names the item or a stream that is not there, and all
/// where it names none. The first ones are below 4K where that is preferred. A
/// probe may fall back to all streams of the same resolution.
pub proof fn clients_are_offered_what_they_name<'a>(
    service: &'a StreamService,
    r: StreamSelection<'a>,
)
    requires
        service.group is None,
        call_ensures(StreamService::select_streams, (service,), r),
    ensures
        pointed(r.probe_pool@) == service.streams@,
        r.restrict_resolution,
        r.probe_only_first <==> service.requested_id is None,
        r.specific_requested <==> (service.requested_id matches Some(id) && id != service.item_id
            && exists|k: int|
            0 <= k < service.streams@.len() && (#[trigger] service.streams@[k]).id == id),
        r.specific_requested ==> pointed(r.candidates@) == service.streams@.filter(
            |m: Media| m.id == service.requested_id->0,
        ),
        !r.specific_requested && service.requested_id is Some && service.streams@.len() > 0
            ==> r.candidates@.len() == 1 && *r.candidates@[0] == service.streams@[0],
        !r.specific_requested && service.requested_id is Some && service.streams@.len() == 0
            ==> r.candidates@.len() == 0,
        service.requested_id is None && !service.prefer_lower_res_for_transcode ==> pointed(
            r.candidates@,
        ) == service.streams@,
        service.requested_id is None && service.prefer_lower_res_for_transcode ==> pointed(
            r.candidates@,
        ) == service.streams@.filter(|m: Media| !is_4k(m)) + service.streams@.filter(
            |m: Media| is_4k(m),
        ),
{
    let shown = pointed(r.candidates@);
    if let Some(id) = service.requested_id {
        positions_are_first(service.streams@, id);
        if !r.specific_requested {
            let first = if service.streams@.len() > 0 {
                service.streams@.take(1)
            } else {
                service.streams@
            };
            reveal(Seq::filter);
            reveal_with_fuel(Seq::filter, 3);
            if service.streams@.len() > 0 {
                assert(first.drop_last() =~= Seq::<Media>::empty());
                assert(lower_first(first) =~= first);
            } else {
                assert(lower_first(first) =~= first);
            }
            assert(shown == first);
            assert(shown.len() == r.candidates@.len());
            if service.streams@.len() > 0 {
                assert(shown[0] == *r.candidates@[0]);
            }
        }
    }
}

/// A stream is in 4K exactly if it is tagged so.
pub proof fn tags_tell_the_resolution(media: Media)
    ensures
        is_4k(media) <==> (media.stream_info matches Some(info)
            && info.resolution_tag matches Some(tag) && tag@ == "4K"@),
{
}

/// What a device plays of a group is kept for a day, under a key of the item and the
/// device. Without a group nothing is kept.
pub proof fn preferences_are_kept_for_a_day(
    service: &StreamService,
    device_key: &str,
    r: Option<Preference>,
)
    requires
        service.stream is Some,
        call_ensures(StreamService::save_preference, (service, device_key), r),
    ensures
        r is Some <==> service.group is Some,
        r matches Some(p) ==> {
            &&& p.key@ == "pstream:"@ + service.item_id.hyphenated() + ":"@ + device_key@
            &&& p.stream == service.stream->0.id
            &&& p.seconds == 24 * 60 * 60
        },
{
}

/// The key of a preference names the item and the device.
pub proof fn preference_keys_name_item_and_device(item_id: MediaId, device_key: &str, r: String)
    requires
        call_ensures(write_preference_key, (item_id, device_key), r),
    ensures
        r@ == "pstream:"@ + item_id.hyphenated() + ":"@ + device_key@,
{
}

/// A lookup starts with what the client names, else with the item. A group leads to
/// its streams and the first of them is found; a film, an episode and a track lead
/// to theirs; anything else is found itself. What is not there is told.
pub proof fn lookups_lead_to_a_stream(
    request: &LookupRequest,
    stage: LookupStage,
    event: LookupEvent,
    next: (LookupStage, LookupAction),
)
    requires
        call_ensures(StreamService::lookup, (request, stage, event), next),
    ensures
        stage is Start && event is Begin ==> next.0 is Media && (
        next.1 matches LookupAction::FindMedia { id } && id == (match request.requested_id {
            Some(named) => named,
            None => request.item_id,
        })),
        stage is Media && event == LookupEvent::Media(None) ==> next.0 is Finished && (
        next.1 matches LookupAction::Fail(t) && t@ == "stream not found: "@ + (
        match request.requested_id {
            Some(named) => named.hyphenated(),
            None => request.item_id.hyphenated(),
        })),
        stage is Media ==> (event matches LookupEvent::Media(Some(media)) ==> {
            &&& media.kind == MediaKind::StreamGroup ==> next.0 == (LookupStage::GroupStreams {
                group: media.id,
            }) && next.1 == (LookupAction::FindGroupStreams { group: media.id })
            &&& media.kind == MediaKind::Movie || media.kind == MediaKind::Episode || media.kind
                == MediaKind::Track ==> next.0 is Streams && next.1 == (LookupAction::FindStreams {
                of: media.id,
            })
            &&& media.kind != MediaKind::StreamGroup && media.kind != MediaKind::Movie && media.kind
                != MediaKind::Episode && media.kind != MediaKind::Track ==> next.0 is Finished
                && next.1 == LookupAction::Found(media)
        }),
        stage matches LookupStage::GroupStreams { group } ==> event matches LookupEvent::Streams(
            streams,
        ) ==> next.0 is Finished && if streams@.len() == 0 {
            next.1 matches LookupAction::Fail(t) && t@ == "no streams available for group "@
                + group.hyphenated()
        } else {
            next.1 == LookupAction::Found(streams@[0])
        },
        next.1 is Ignore ==> next.0 == stage,
        next.1 is Ignore <==> !(stage is Start && event is Begin) && !(stage is Media
            && event is Media) && !((stage is GroupStreams || stage is Streams)
            && event is Streams) && !(stage is Preference && event is Preference),
{
}

/// Among the streams of an item, a lookup finds the one that the client names. Where
/// it names none, it finds the one that its device prefers, and the first where that
/// is not there or the device is not known.
pub proof fn lookups_choose_among_the_streams(
    request: &LookupRequest,
    stage: LookupStage,
    event: LookupEvent,
    next: (LookupStage, LookupAction),
)
    requires
        call_ensures(StreamService::lookup, (request, stage, event), next),
    ensures
        stage is Streams ==> (event matches LookupEvent::Streams(streams) ==> {
            &&& (request.requested_id matches Some(id) && id != request.item_id) ==> next.0 is Finished
                && match position_of(streams@, request.requested_id->0) {
                Some(k) => next.1 == LookupAction::Found(streams@[k]),
                None => next.1 matches LookupAction::Fail(t) && t@ == "stream not found: "@
                    + request.requested_id->0.hyphenated(),
            }
            &&& !(request.requested_id matches Some(id) && id != request.item_id) ==> match request.device_key {
                Some(device) => (next.0 matches LookupStage::Preference { streams: kept } && kept@
                    == streams@) && (next.1 matches LookupAction::ReadPreference { key } && key@
                    == "pstream:"@ + request.item_id.hyphenated() + ":"@ + device@),
                None => next.0 is Finished && if streams@.len() > 0 {
                    next.1 == LookupAction::Found(streams@[0])
                } else {
                    next.1 matches LookupAction::Fail(t) && t@ == "no playable sources for "@
                        + request.item_id.hyphenated()
                },
            }
        }),
        stage matches LookupStage::Preference { streams } ==> event
            matches LookupEvent::Preference(saved) ==> next.0 is Finished && {
            &&& streams@.len() == 0 ==> (next.1 matches LookupAction::Fail(t) && t@
                == "no playable sources for "@ + request.item_id.hyphenated())
            &&& saved is None && streams@.len() > 0 ==> next.1 == LookupAction::Found(streams@[0])
            &&& saved matches Some(id) ==> streams@.len() > 0 ==> match position_of(streams@, id) {
                Some(k) => next.1 == LookupAction::Found(streams@[k]),
                None => next.1 == LookupAction::Found(streams@[0]),
            }
        },
{
    if let LookupStage::Preference { streams } = stage {
        if let LookupEvent::Preference(Some(id)) = event {
            positions_are_first(streams@, id);
        }
    }
}

} // verus!
