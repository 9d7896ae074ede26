//! Stream indices of subtitles: those inside a file and those put beside it.

use vstd::prelude::*;

use crate::ids::MediaId;
use crate::media::MediaSourceInfo;
use crate::media::MediaStream;
use crate::media::MediaStreamType;
use crate::media::SubtitleInfo;
use crate::number::decimal;
use crate::number::decimal_i64;
use crate::number::decimal_u64;
use crate::number::digits;
use crate::ranking::external_order;
use crate::ranking::external_positions;
use crate::ranking::ints;

verus! {

// ---------------------------------------------------------------------------
// Indices behind those of the file
// ---------------------------------------------------------------------------

/// The highest index among streams.
pub open spec fn highest_index(streams: Seq<MediaStream>) -> Option<i64>
    decreases streams.len(),
{
    if streams.len() == 0 {
        None
    } else {
        match highest_index(streams.drop_last()) {
            Some(m) => if m >= streams.last().index {
                Some(m)
            } else {
                Some(streams.last().index)
            },
            None => Some(streams.last().index),
        }
    }
}

/// The first index behind those of the streams; 0 where there are none.
pub open spec fn next_index(streams: Seq<MediaStream>) -> int {
    match highest_index(streams) {
        Some(m) => m + 1,
        None => 0,
    }
}

/// A stream has this index.
pub open spec fn has_index(streams: Seq<MediaStream>, index: i64) -> bool {
    exists|k: int| 0 <= k < streams.len() && (#[trigger] streams[k]).index == index
}

/// No stream has a higher index than the highest, and one has it.
pub proof fn highest_index_is_highest(streams: Seq<MediaStream>)
    ensures
        match highest_index(streams) {
            Some(m) => has_index(streams, m) && (forall|k: int|
                0 <= k < streams.len() ==> (#[trigger] streams[k]).index <= m),
            None => streams.len() == 0,
        },
    decreases streams.len(),
{
    if streams.len() > 0 {
        let head = streams.drop_last();
        highest_index_is_highest(head);
        assert(streams[streams.len() - 1] == streams.last());
        match highest_index(head) {
            Some(m) => {
                let k = choose|k: int| 0 <= k < head.len() && (#[trigger] head[k]).index == m;
                assert(streams[k] == head[k]);
                assert forall|j: int| 0 <= j < streams.len() implies (
                #[trigger] streams[j]).index <= highest_index(streams)->0 by {
                    if j < head.len() {
                        assert(streams[j] == head[j]);
                    }
                }
            },
            None => {},
        }
    }
}

/// Finds the highest index among streams.
pub fn find_highest_index(streams: &Vec<MediaStream>) -> (r: Option<i64>)
    ensures
        r == highest_index(streams@),
{
    let mut highest: Option<i64> = None;
    let mut k: usize = 0;
    assert(streams@.take(0) =~= Seq::<MediaStream>::empty());
    while k < streams.len()
        invariant
            k <= streams.len(),
            highest == highest_index(streams@.take(k as int)),
        decreases streams.len() - k,
    {
        proof {
            assert(streams@.take(k + 1).drop_last() =~= streams@.take(k as int));
            assert(streams@.take(k + 1).last() == streams@[k as int]);
        }
        let index: i64 = streams[k].index;
        highest = match highest {
            Some(m) => if m >= index {
                Some(m)
            } else {
                Some(index)
            },
            None => Some(index),
        };
        k += 1;
    }
    assert(streams@.take(k as int) =~= streams@);
    highest
}

/// The first index behind those of the streams.
pub fn first_free_index(streams: &Vec<MediaStream>) -> (r: i64)
    requires
        next_index(streams@) <= i64::MAX,
    ensures
        r == next_index(streams@),
{
    match find_highest_index(streams) {
        Some(m) => m + 1,
        None => 0,
    }
}

/// The place among the external subtitles that an index means, if it means one:
/// the index lies behind those of the file.
pub open spec fn external_place(streams: Seq<MediaStream>, index: i64) -> Option<usize> {
    if index >= next_index(streams) && !has_index(streams, index) {
        Some((index - next_index(streams)) as usize)
    } else {
        None
    }
}

fn index_taken(streams: &Vec<MediaStream>, index: i64) -> (r: bool)
    ensures
        r == has_index(streams@, index),
{
    let mut k: usize = 0;
    while k < streams.len()
        invariant
            k <= streams.len(),
            forall|j: int| 0 <= j < k ==> (#[trigger] streams@[j]).index != index,
        decreases streams.len() - k,
    {
        if streams[k].index == index {
            return true;
        }
        k += 1;
    }
    false
}

/// Reads an index as a place among the external subtitles.
pub fn find_external_place(streams: &Vec<MediaStream>, index: i64) -> (r: Option<usize>)
    requires
        next_index(streams@) <= i64::MAX,
        i64::MIN <= index - next_index(streams@) <= i64::MAX,
    ensures
        r == external_place(streams@, index),
{
    let place: i64 = index - first_free_index(streams);
    if place >= 0 && !index_taken(streams, index) {
        Some(place as usize)
    } else {
        None
    }
}

/// The index that an external subtitle gets means that subtitle again.
pub proof fn given_indices_are_found_again(streams: Seq<MediaStream>, place: usize)
    requires
        next_index(streams) + place <= i64::MAX,
    ensures
        external_place(streams, (next_index(streams) + place) as i64) == Some(place),
{
    highest_index_is_highest(streams);
}

/// The index of a stream of the file never means an external subtitle.
pub proof fn embedded_indices_are_not_external(streams: Seq<MediaStream>, index: i64)
    requires
        has_index(streams, index),
    ensures
        external_place(streams, index) is None,
{
}

// ---------------------------------------------------------------------------
// Putting external subtitles beside a source
// ---------------------------------------------------------------------------

/// The address under which the server hands out a subtitle.
pub open spec fn subtitle_url(
    item_id: MediaId,
    source_id: MediaId,
    index: int,
    api_key: Seq<char>,
) -> Seq<char> {
    "/Videos/"@ + item_id.hyphenated() + "/"@ + source_id.hyphenated() + "/Subtitles/"@ + decimal(
        index,
    ) + "/0/Stream.vtt?ApiKey="@ + api_key
}

/// Writes the address of a subtitle.
pub fn write_subtitle_url(
    item_id: MediaId,
    source_id: MediaId,
    index: i64,
    api_key: &str,
) -> (r: String)
    ensures
        r@ == subtitle_url(item_id, source_id, index as int, api_key@),
{
    let mut r: String = "/Videos/".to_owned();
    r.append(item_id.to_text().as_str());
    r.append("/");
    r.append(source_id.to_text().as_str());
    r.append("/Subtitles/");
    r.append(decimal_i64(index).as_str());
    r.append("/0/Stream.vtt?ApiKey=");
    r.append(api_key);
    r
}

/// `stream` is `base` with an index and an address of its own, and marked as the
/// default where `default` says so.
pub open spec fn is_placed(
    stream: MediaStream,
    base: MediaStream,
    index: int,
    url: Seq<char>,
    default: bool,
) -> bool {
    &&& stream.index == index
    &&& stream.delivery_url matches Some(u) && u@ == url
    &&& stream == MediaStream {
        index: stream.index,
        delivery_url: stream.delivery_url,
        is_default: if default {
            Some(true)
        } else {
            base.is_default
        },
        ..base
    }
}

/// The source asks for a default among the subtitles put beside it.
pub open spec fn wants_default(source: MediaSourceInfo, langs: Seq<String>) -> bool {
    langs.len() > 0 && source.default_subtitle_stream_index is None
}

/// `after` is `before` with external subtitles beside it: its own streams stay,
/// the subtitles follow in their order with the next indices, and the first of
/// them is the default where the source has none and there are preferences.
pub open spec fn is_completed(
    before: MediaSourceInfo,
    after: MediaSourceInfo,
    subs: Seq<SubtitleInfo>,
    converted: Seq<MediaStream>,
    item_id: MediaId,
    api_key: Seq<char>,
    langs: Seq<String>,
) -> bool {
    let places = external_positions(subs, langs, before.name, before.path);
    let own = before.media_streams@;
    let next = next_index(own);
    &&& after.media_streams@.len() == own.len() + places.len()
    &&& after.media_streams@.take(own.len() as int) == own
    &&& forall|k: int|
        0 <= k < places.len() ==> is_placed(
            #[trigger] after.media_streams@[own.len() + k],
            converted[places[k]],
            next + k,
            subtitle_url(item_id, before.id, next + k, api_key),
            wants_default(before, langs) && k == 0,
        )
    &&& after == MediaSourceInfo {
        media_streams: after.media_streams,
        default_subtitle_stream_index: if wants_default(before, langs) && places.len() > 0 {
            Some(next as i64)
        } else {
            before.default_subtitle_stream_index
        },
        ..before
    }
}

/// The indices that the external subtitles of a source get are small enough to be
/// counted.
pub open spec fn has_room(
    source: MediaSourceInfo,
    subs: Seq<SubtitleInfo>,
    langs: Seq<String>,
) -> bool {
    let next = next_index(source.media_streams@);
    &&& next <= i64::MAX
    &&& next + external_positions(subs, langs, source.name, source.path).len() - 1 <= i64::MAX
}

/// Whether the indices that the external subtitles of a source get can be counted.
pub fn check_room(source: &MediaSourceInfo, subs: &Vec<SubtitleInfo>, langs: &Vec<String>) -> (r:
    bool)
    ensures
        r == has_room(*source, subs@, langs@),
{
    let next: i128 = match find_highest_index(&source.media_streams) {
        Some(m) => m as i128 + 1,
        None => 0,
    };
    let order: Vec<usize> = external_order(subs, langs, &source.name, &source.path);
    assert(ints(order@).len() == order.len());
    next <= i64::MAX as i128 && next + order.len() as i128 - 1 <= i64::MAX as i128
}

fn complete_source(
    source: &mut MediaSourceInfo,
    subs: &Vec<SubtitleInfo>,
    converted: &Vec<MediaStream>,
    item_id: MediaId,
    api_key: &str,
    langs: &Vec<String>,
)
    requires
        converted.len() == subs.len(),
        has_room(*old(source), subs@, langs@),
    ensures
        is_completed(*old(source), *final(source), subs@, converted@, item_id, api_key@, langs@),
{
    let ghost before = *source;
    let ghost own = source.media_streams@;
    let next: i64 = first_free_index(&source.media_streams);
    let order: Vec<usize> = external_order(subs, langs, &source.name, &source.path);
    let ghost places = ints(order@);
    proof {
        assert(places.len() == order.len());
    }
    let wants: bool = !langs.is_empty() && source.default_subtitle_stream_index.is_none();
    let mut k: usize = 0;
    while k < order.len()
        invariant
            k <= order.len(),
            converted.len() == subs.len(),
            forall|j: int| 0 <= j < order.len() ==> #[trigger] order@[j] < subs.len(),
            own == before.media_streams@,
            next == next_index(own),
            next + order.len() - 1 <= i64::MAX,
            places == ints(order@),
            wants == wants_default(before, langs@),
            source.media_streams@.len() == own.len() + k,
            source.media_streams@.take(own.len() as int) == own,
            forall|j: int|
                0 <= j < k ==> is_placed(
                    #[trigger] source.media_streams@[own.len() + j],
                    converted@[places[j]],
                    next + j,
                    subtitle_url(item_id, before.id, next + j, api_key@),
                    wants && j == 0,
                ),
            *source == (MediaSourceInfo {
                media_streams: source.media_streams,
                default_subtitle_stream_index: if wants && k > 0 {
                    Some(next)
                } else {
                    before.default_subtitle_stream_index
                },
                ..before
            }),
        decreases order.len() - k,
    {
        let mut stream: MediaStream = converted[order[k]].clone();
        let index: i64 = (next as i128 + k as i128) as i64;
        stream.index = index;
        stream.delivery_url = Some(write_subtitle_url(item_id, source.id, index, api_key));
        if wants && k == 0 {
            stream.is_default = Some(true);
            source.default_subtitle_stream_index = Some(next);
        }
        let ghost streams_before = source.media_streams@;
        source.media_streams.push(stream);
        proof {
            assert(source.media_streams@ == streams_before.push(stream));
            assert(source.media_streams@.take(own.len() as int) =~= own);
            assert(places[k as int] == order@[k as int] as int);
            assert forall|j: int| 0 <= j < k + 1 implies is_placed(
                #[trigger] source.media_streams@[own.len() + j],
                converted@[places[j]],
                next + j,
                subtitle_url(item_id, before.id, next + j, api_key@),
                wants && j == 0,
            ) by {
                if j < k {
                    assert(source.media_streams@[own.len() + j] == streams_before[own.len() + j]);
                }
            }
        }
        k += 1;
    }
}

/// `after` is `before` with external subtitles beside each source; nothing changes
/// where there are no subtitles.
pub open spec fn are_completed(
    before: Seq<MediaSourceInfo>,
    after: Seq<MediaSourceInfo>,
    subs: Seq<SubtitleInfo>,
    converted: Seq<MediaStream>,
    item_id: MediaId,
    api_key: Seq<char>,
    langs: Seq<String>,
) -> bool {
    if subs.len() == 0 {
        after == before
    } else {
        &&& after.len() == before.len()
        &&& forall|k: int|
            0 <= k < after.len() ==> is_completed(
                before[k],
                #[trigger] after[k],
                subs,
                converted,
                item_id,
                api_key,
                langs,
            )
    }
}

/// There is room beside all sources, or nothing to put there.
pub open spec fn have_room(
    sources: Seq<MediaSourceInfo>,
    subs: Seq<SubtitleInfo>,
    langs: Seq<String>,
) -> bool {
    subs.len() > 0 ==> forall|k: int|
        0 <= k < sources.len() ==> has_room(#[trigger] sources[k], subs, langs)
}

/// Puts external subtitles beside each source of an item. `converted` holds each
/// subtitle as a stream, in the order of `subs`.
pub fn inject_external_subtitles(
    subs: &Vec<SubtitleInfo>,
    converted: &Vec<MediaStream>,
    media_sources: &mut Vec<MediaSourceInfo>,
    item_id: MediaId,
    api_key: &str,
    sub_langs: &Vec<String>,
)
    requires
        converted.len() == subs.len(),
        have_room(old(media_sources)@, subs@, sub_langs@),
    ensures
        are_completed(
            old(media_sources)@,
            final(media_sources)@,
            subs@,
            converted@,
            item_id,
            api_key@,
            sub_langs@,
        ),
{
    if subs.is_empty() {
        return;
    }
    let ghost before = media_sources@;
    let mut k: usize = 0;
    while k < media_sources.len()
        invariant
            k <= media_sources.len(),
            media_sources@.len() == before.len(),
            converted.len() == subs.len(),
            forall|j: int|
                0 <= j < before.len() ==> has_room(#[trigger] before[j], subs@, sub_langs@),
            forall|j: int| k <= j < before.len() ==> #[trigger] media_sources@[j] == before[j],
            forall|j: int|
                0 <= j < k ==> is_completed(
                    before[j],
                    #[trigger] media_sources@[j],
                    subs@,
                    converted@,
                    item_id,
                    api_key@,
                    sub_langs@,
                ),
        decreases media_sources.len() - k,
    {
        let ghost now = media_sources@;
        assert(media_sources@[k as int] == before[k as int]);
        complete_source(&mut media_sources[k], subs, converted, item_id, api_key, sub_langs);
        assert forall|j: int| 0 <= j < before.len() && j != k implies media_sources@[j]
            == now[j] by {}
        k += 1;
    }
}

/// Puts external subtitles beside each source of an item where all of them have
/// room, and changes nothing where one has not. Says which it was.
pub fn inject_where_there_is_room(
    subs: &Vec<SubtitleInfo>,
    converted: &Vec<MediaStream>,
    media_sources: &mut Vec<MediaSourceInfo>,
    item_id: MediaId,
    api_key: &str,
    sub_langs: &Vec<String>,
) -> (r: bool)
    requires
        converted.len() == subs.len(),
    ensures
        r == have_room(old(media_sources)@, subs@, sub_langs@),
        r ==> are_completed(
            old(media_sources)@,
            final(media_sources)@,
            subs@,
            converted@,
            item_id,
            api_key@,
            sub_langs@,
        ),
        !r ==> final(media_sources)@ == old(media_sources)@,
{
    if !subs.is_empty() {
        let mut k: usize = 0;
        while k < media_sources.len()
            invariant
                k <= media_sources.len(),
                media_sources@ == old(media_sources)@,
                subs.len() > 0,
                forall|j: int|
                    0 <= j < k ==> has_room(#[trigger] media_sources@[j], subs@, sub_langs@),
            decreases media_sources.len() - k,
        {
            if !check_room(&media_sources[k], subs, sub_langs) {
                assert(!has_room(media_sources@[k as int], subs@, sub_langs@));
                return false;
            }
            k += 1;
        }
    }
    inject_external_subtitles(subs, converted, media_sources, item_id, api_key, sub_langs);
    true
}

/// The index under which a client finds an external subtitle beside a source
/// means the same subtitle when the client asks for it.
pub proof fn injected_subtitles_are_found_again(
    before: MediaSourceInfo,
    after: MediaSourceInfo,
    subs: Seq<SubtitleInfo>,
    converted: Seq<MediaStream>,
    item_id: MediaId,
    api_key: Seq<char>,
    langs: Seq<String>,
    k: usize,
)
    requires
        is_completed(before, after, subs, converted, item_id, api_key, langs),
        k < external_positions(subs, langs, before.name, before.path).len(),
    ensures
        external_place(
            before.media_streams@,
            after.media_streams@[before.media_streams@.len() + k].index,
        ) == Some(k),
{
    let own = before.media_streams@;
    assert(is_placed(
        after.media_streams@[own.len() + k],
        converted[external_positions(subs, langs, before.name, before.path)[k as int]],
        next_index(own) + k,
        subtitle_url(item_id, before.id, next_index(own) + k, api_key),
        wants_default(before, langs) && k == 0,
    ));
    given_indices_are_found_again(own, k);
}

// ---------------------------------------------------------------------------
// Subtitles of the file
// ---------------------------------------------------------------------------

/// A subtitle stream.
pub open spec fn is_subtitle(s: MediaStream) -> bool {
    s.type_ == Some(MediaStreamType::Subtitle)
}

/// How many subtitle streams have an index below `index`.
pub open spec fn subtitles_below(streams: Seq<MediaStream>, index: i64) -> nat
    decreases streams.len(),
{
    if streams.len() == 0 {
        0
    } else {
        subtitles_below(streams.drop_last(), index) + if is_subtitle(streams.last())
            && streams.last().index < index {
            1nat
        } else {
            0nat
        }
    }
}

/// The place of a subtitle stream among the subtitle streams of its file, by
/// index; `None` where no subtitle stream has the index.
pub open spec fn subtitle_ordinal(streams: Seq<MediaStream>, index: i64) -> Option<nat> {
    if exists|k: int|
        0 <= k < streams.len() && is_subtitle(#[trigger] streams[k]) && streams[k].index
            == index {
        Some(subtitles_below(streams, index))
    } else {
        None
    }
}

/// How ffmpeg names a subtitle stream of its first input, by its place among the
/// subtitle streams.
pub open spec fn map_spec_text(ordinal: nat) -> Seq<char> {
    "0:s:"@ + digits(ordinal)
}

/// Names a subtitle stream for ffmpeg.
pub fn subtitle_map_spec(streams: &Vec<MediaStream>, index: i64) -> (r: Option<String>)
    ensures
        match r {
            Some(s) => subtitle_ordinal(streams@, index) matches Some(n) && s@ == map_spec_text(n),
            None => subtitle_ordinal(streams@, index) is None,
        },
{
    let mut found: bool = false;
    let mut below: u64 = 0;
    let mut k: usize = 0;
    assert(streams@.take(0) =~= Seq::<MediaStream>::empty());
    while k < streams.len()
        invariant
            k <= streams.len(),
            below <= k,
            below == subtitles_below(streams@.take(k as int), index),
            found == exists|j: int|
                0 <= j < k && is_subtitle(#[trigger] streams@[j]) && streams@[j].index == index,
        decreases streams.len() - k,
    {
        proof {
            assert(streams@.take(k + 1).drop_last() =~= streams@.take(k as int));
            assert(streams@.take(k + 1).last() == streams@[k as int]);
        }
        let s: &MediaStream = &streams[k];
        let subtitle: bool = match s.type_ {
            Some(MediaStreamType::Subtitle) => true,
            _ => false,
        };
        if subtitle {
            if s.index == index {
                found = true;
            }
            if s.index < index {
                below += 1;
            }
        }
        k += 1;
    }
    assert(streams@.take(k as int) =~= streams@);
    if found {
        let mut r: String = "0:s:".to_owned();
        r.append(decimal_u64(below).as_str());
        Some(r)
    } else {
        None
    }
}

proof fn lemma_below_grows(streams: Seq<MediaStream>, a: i64, b: i64)
    requires
        a < b,
    ensures
        subtitles_below(streams, a) <= subtitles_below(streams, b),
        (exists|k: int|
            0 <= k < streams.len() && is_subtitle(#[trigger] streams[k]) && streams[k].index == a)
            ==> subtitles_below(streams, a) < subtitles_below(streams, b),
    decreases streams.len(),
{
    if streams.len() > 0 {
        let head = streams.drop_last();
        lemma_below_grows(head, a, b);
        if exists|k: int|
            0 <= k < streams.len() && is_subtitle(#[trigger] streams[k]) && streams[k].index == a {
            let k = choose|k: int|
                0 <= k < streams.len() && is_subtitle(#[trigger] streams[k]) && streams[k].index
                    == a;
            if k < head.len() {
                assert(head[k] == streams[k]);
            }
        }
    }
}

/// Subtitle streams with different indices have different names for ffmpeg.
pub proof fn map_specs_are_distinct(streams: Seq<MediaStream>, a: i64, b: i64)
    requires
        a != b,
        subtitle_ordinal(streams, a) is Some,
        subtitle_ordinal(streams, b) is Some,
    ensures
        map_spec_text(subtitle_ordinal(streams, a)->0) != map_spec_text(
            subtitle_ordinal(streams, b)->0,
        ),
{
    let m = subtitle_ordinal(streams, a)->0;
    let n = subtitle_ordinal(streams, b)->0;
    if a < b {
        lemma_below_grows(streams, a, b);
    } else {
        lemma_below_grows(streams, b, a);
    }
    if map_spec_text(m) == map_spec_text(n) {
        reveal_strlit("0:s:");
        assert(map_spec_text(m).skip(4) =~= digits(m));
        assert(map_spec_text(n).skip(4) =~= digits(n));
        crate::number::lemma_digits(m);
        crate::number::lemma_digits(n);
    }
}

// ---------------------------------------------------------------------------
// Laws
// ---------------------------------------------------------------------------

proof fn lemma_below_is_counted(streams: Seq<MediaStream>, index: i64)
    ensures
        subtitles_below(streams, index) == streams.filter(
            |s: MediaStream| s.type_ == Some(MediaStreamType::Subtitle) && s.index < index,
        ).len(),
    decreases streams.len(),
{
    reveal(Seq::filter);
    if streams.len() > 0 {
        lemma_below_is_counted(streams.drop_last(), index);
    }
}

proof fn lemma_below_without_others(streams: Seq<MediaStream>, index: i64)
    ensures
        subtitles_below(streams, index) == subtitles_below(
            streams.filter(|s: MediaStream| s.type_ == Some(MediaStreamType::Subtitle)),
            index,
        ),
        subtitles_below(streams, index) <= streams.filter(
            |s: MediaStream| s.type_ == Some(MediaStreamType::Subtitle),
        ).len(),
    decreases streams.len(),
{
    reveal(Seq::filter);
    let p = |s: MediaStream| s.type_ == Some(MediaStreamType::Subtitle);
    if streams.len() > 0 {
        let head = streams.drop_last();
        lemma_below_without_others(head, index);
        if p(streams.last()) {
            assert(streams.filter(p) == head.filter(p).push(streams.last()));
            assert(head.filter(p).push(streams.last()).drop_last() =~= head.filter(p));
        }
    }
}

/// The place of a subtitle stream is that among the subtitle streams alone: as many
/// as have a lower index stand before it, the streams of sound and picture do not
/// count, and the one with the lowest index comes first.
pub proof fn subtitle_places_count_subtitles_alone(streams: Seq<MediaStream>, index: i64)
    ensures
        subtitle_ordinal(streams, index) == subtitle_ordinal(
            streams.filter(|s: MediaStream| s.type_ == Some(MediaStreamType::Subtitle)),
            index,
        ),
        subtitle_ordinal(streams, index) matches Some(n) ==> {
            &&& n == streams.filter(
                |s: MediaStream| s.type_ == Some(MediaStreamType::Subtitle) && s.index < index,
            ).len()
            &&& n < streams.filter(
                |s: MediaStream| s.type_ == Some(MediaStreamType::Subtitle),
            ).len()
        },
        subtitle_ordinal(streams, index) is Some <==> exists|k: int|
            0 <= k < streams.len() && (#[trigger] streams[k]).type_ == Some(
                MediaStreamType::Subtitle,
            ) && streams[k].index == index,
        subtitle_ordinal(streams, index) is Some && (forall|k: int|
            0 <= k < streams.len() && (#[trigger] streams[k]).type_ == Some(
                MediaStreamType::Subtitle,
            ) ==> index <= streams[k].index) ==> subtitle_ordinal(streams, index) == Some(0nat),
{
    let p = |s: MediaStream| s.type_ == Some(MediaStreamType::Subtitle);
    let q = |s: MediaStream| s.type_ == Some(MediaStreamType::Subtitle) && s.index < index;
    let kept = streams.filter(p);
    let before = streams.filter(q);
    lemma_below_is_counted(streams, index);
    lemma_below_without_others(streams, index);
    if exists|k: int|
        0 <= k < streams.len() && is_subtitle(#[trigger] streams[k]) && streams[k].index == index {
        let k = choose|k: int|
            0 <= k < streams.len() && is_subtitle(#[trigger] streams[k]) && streams[k].index
                == index;
        streams.lemma_filter_contains(p, k);
        let j = choose|j: int| 0 <= j < kept.len() && kept[j] == streams[k];
        assert(is_subtitle(kept[j]) && kept[j].index == index);
        lemma_below_fits(streams, index);
    }
    if exists|j: int|
        0 <= j < kept.len() && is_subtitle(#[trigger] kept[j]) && kept[j].index == index {
        let j = choose|j: int|
            0 <= j < kept.len() && is_subtitle(#[trigger] kept[j]) && kept[j].index == index;
        streams.lemma_filter_contains_rev(p, kept[j]);
        let k = choose|k: int| 0 <= k < streams.len() && streams[k] == kept[j];
        assert(is_subtitle(streams[k]) && streams[k].index == index);
    }
    if before.len() > 0 && forall|k: int|
        0 <= k < streams.len() && (#[trigger] streams[k]).type_ == Some(MediaStreamType::Subtitle)
            ==> index <= streams[k].index {
        streams.lemma_filter_pred(q, 0);
        streams.lemma_filter_contains_rev(q, before[0]);
        let k = choose|k: int| 0 <= k < streams.len() && streams[k] == before[0];
        assert(index <= streams[k].index);
    }
}

proof fn lemma_below_fits(streams: Seq<MediaStream>, index: i64)
    requires
        exists|k: int|
            0 <= k < streams.len() && is_subtitle(#[trigger] streams[k]) && streams[k].index
                == index,
    ensures
        subtitles_below(streams, index) < streams.filter(
            |s: MediaStream| s.type_ == Some(MediaStreamType::Subtitle),
        ).len(),
    decreases streams.len(),
{
    reveal(Seq::filter);
    let head = streams.drop_last();
    lemma_below_without_others(head, index);
    let k = choose|k: int|
        0 <= k < streams.len() && is_subtitle(#[trigger] streams[k]) && streams[k].index == index;
    if k < head.len() {
        assert(head[k] == streams[k]);
        lemma_below_fits(head, index);
    }
}

/// ffmpeg names a subtitle stream by its place among the subtitle streams. Taking
/// all other streams away changes no name.
pub proof fn subtitles_are_named_by_their_place(
    streams: &Vec<MediaStream>,
    subtitles: &Vec<MediaStream>,
    index: i64,
    name: Option<String>,
    same: Option<String>,
)
    requires
        subtitles@ == streams@.filter(
            |s: MediaStream| s.type_ == Some(MediaStreamType::Subtitle),
        ),
        call_ensures(subtitle_map_spec, (streams, index), name),
        call_ensures(subtitle_map_spec, (subtitles, index), same),
    ensures
        name is Some <==> exists|k: int|
            0 <= k < streams@.len() && (#[trigger] streams@[k]).type_ == Some(
                MediaStreamType::Subtitle,
            ) && streams@[k].index == index,
        name is Some <==> same is Some,
        name matches Some(text) ==> text@ == same->0@ && text@ == "0:s:"@ + digits(
            streams@.filter(
                |s: MediaStream| s.type_ == Some(MediaStreamType::Subtitle) && s.index < index,
            ).len(),
        ),
{
    subtitle_places_count_subtitles_alone(streams@, index);
}

/// The first free index is behind every index of the file, and next to one. Without
/// streams it is 0.
pub proof fn free_indices_are_behind_those_of_the_file(streams: &Vec<MediaStream>, r: i64)
    requires
        call_ensures(first_free_index, (streams,), r),
    ensures
        streams@.len() == 0 ==> r == 0,
        forall|k: int| 0 <= k < streams@.len() ==> (#[trigger] streams@[k]).index < r,
        streams@.len() > 0 ==> exists|k: int|
            0 <= k < streams@.len() && (#[trigger] streams@[k]).index + 1 == r,
{
    highest_index_is_highest(streams@);
    if let Some(m) = highest_index(streams@) {
        let k = choose|k: int| 0 <= k < streams@.len() && (#[trigger] streams@[k]).index == m;
        assert(streams@[k].index + 1 == r);
    }
}

/// The highest index is that of a stream, and no stream has a higher one.
pub proof fn found_indices_are_highest(streams: &Vec<MediaStream>, r: Option<i64>)
    requires
        call_ensures(find_highest_index, (streams,), r),
    ensures
        r is None <==> streams@.len() == 0,
        r matches Some(m) ==> (exists|k: int|
            0 <= k < streams@.len() && (#[trigger] streams@[k]).index == m) && (forall|k: int|
            0 <= k < streams@.len() ==> (#[trigger] streams@[k]).index <= m),
{
    highest_index_is_highest(streams@);
}

/// An index means an external subtitle exactly if it is behind every index of the
/// file. Its place is how far behind the highest it is, and without streams it is
/// the place itself.
pub proof fn indices_behind_the_file_mean_external_subtitles(
    streams: &Vec<MediaStream>,
    index: i64,
    r: Option<usize>,
)
    requires
        call_ensures(find_external_place, (streams, index), r),
    ensures
        r is Some <==> {
            &&& forall|k: int| 0 <= k < streams@.len() ==> (#[trigger] streams@[k]).index < index
            &&& streams@.len() == 0 ==> index >= 0
        },
        r matches Some(place) ==> streams@.len() == 0 && index <= usize::MAX ==> place == index,
        r matches Some(place) ==> forall|k: int|
            0 <= k < streams@.len() && (forall|j: int|
                0 <= j < streams@.len() ==> (#[trigger] streams@[j]).index <= streams@[k].index)
                && index - streams@[k].index - 1 <= usize::MAX ==> place == index - (
            #[trigger] streams@[k]).index - 1,
{
    highest_index_is_highest(streams@);
    if let Some(m) = highest_index(streams@) {
        let j = choose|j: int| 0 <= j < streams@.len() && (#[trigger] streams@[j]).index == m;
        assert forall|k: int|
            0 <= k < streams@.len() && (forall|j: int|
                0 <= j < streams@.len() ==> (#[trigger] streams@[j]).index
                    <= streams@[k].index) implies (#[trigger] streams@[k]).index == m by {
            assert(streams@[j].index <= streams@[k].index);
        }
        if has_index(streams@, index) {
            let k = choose|k: int|
                0 <= k < streams@.len() && (#[trigger] streams@[k]).index == index;
            assert(streams@[k].index <= m);
        }
    }
}

/// The address of a subtitle names the item, the source, the index and the key, in
/// this order.
pub proof fn subtitle_addresses_name_the_subtitle(
    item_id: MediaId,
    source_id: MediaId,
    index: i64,
    api_key: &str,
    r: String,
)
    requires
        call_ensures(write_subtitle_url, (item_id, source_id, index, api_key), r),
    ensures
        r@ == "/Videos/"@ + item_id.hyphenated() + "/"@ + source_id.hyphenated() + "/Subtitles/"@
            + decimal(index as int) + "/0/Stream.vtt?ApiKey="@ + api_key@,
{
}

/// A source keeps its own streams and all else that is known of it. The subtitles
/// follow its streams, with the indices behind theirs and addresses of their own,
/// and are otherwise what they were. The first of them becomes the default exactly
/// if the source has no default and there are preferred languages.
pub proof fn sources_keep_what_they_have(
    before: MediaSourceInfo,
    after: MediaSourceInfo,
    subs: Seq<SubtitleInfo>,
    converted: Seq<MediaStream>,
    item_id: MediaId,
    api_key: Seq<char>,
    langs: Seq<String>,
)
    requires
        has_room(before, subs, langs),
        is_completed(before, after, subs, converted, item_id, api_key, langs),
    ensures
        after == (MediaSourceInfo {
            media_streams: after.media_streams,
            default_subtitle_stream_index: after.default_subtitle_stream_index,
            ..before
        }),
        after.media_streams@.len() == before.media_streams@.len() + external_positions(
            subs,
            langs,
            before.name,
            before.path,
        ).len(),
        forall|k: int|
            0 <= k < before.media_streams@.len() ==> #[trigger] after.media_streams@[k]
                == before.media_streams@[k],
        forall|k: int, j: int|
            0 <= k < before.media_streams@.len() <= j < after.media_streams@.len() ==> (
            #[trigger] before.media_streams@[k]).index < (#[trigger] after.media_streams@[j]).index,
        forall|j: int|
            before.media_streams@.len() < j < after.media_streams@.len() ==> (
            #[trigger] after.media_streams@[j]).index == after.media_streams@[j - 1].index + 1,
        forall|j: int|
            before.media_streams@.len() <= j < after.media_streams@.len() ==> {
                let stream = #[trigger] after.media_streams@[j];
                let base = converted[external_positions(subs, langs, before.name, before.path)[j
                    - before.media_streams@.len()]];
                &&& stream == MediaStream {
                    index: stream.index,
                    delivery_url: stream.delivery_url,
                    is_default: stream.is_default,
                    ..base
                }
                &&& stream.delivery_url matches Some(url) && url@ == "/Videos/"@
                    + item_id.hyphenated() + "/"@ + before.id.hyphenated() + "/Subtitles/"@
                    + decimal(stream.index as int) + "/0/Stream.vtt?ApiKey="@ + api_key
                &&& stream.is_default == (if langs.len() > 0
                    && before.default_subtitle_stream_index is None && j
                    == before.media_streams@.len() {
                    Some(true)
                } else {
                    base.is_default
                })
            },
        langs.len() > 0 && before.default_subtitle_stream_index is None && after.media_streams@.len()
            > before.media_streams@.len() ==> after.default_subtitle_stream_index == Some(
            after.media_streams@[before.media_streams@.len() as int].index,
        ),
        langs.len() == 0 || before.default_subtitle_stream_index is Some || after.media_streams@.len()
            == before.media_streams@.len() ==> after.default_subtitle_stream_index
            == before.default_subtitle_stream_index,
{
    let own = before.media_streams@;
    let places = external_positions(subs, langs, before.name, before.path);
    let next = next_index(own);
    highest_index_is_highest(own);
    assert forall|k: int| 0 <= k < own.len() implies #[trigger] after.media_streams@[k]
        == own[k] by {
        assert(after.media_streams@.take(own.len() as int)[k] == own[k]);
    }
    assert forall|j: int| own.len() <= j < after.media_streams@.len() implies is_placed(
        #[trigger] after.media_streams@[j],
        converted[places[j - own.len()]],
        next + j - own.len(),
        subtitle_url(item_id, before.id, next + j - own.len(), api_key),
        wants_default(before, langs) && j == own.len(),
    ) by {
        let k = j - own.len();
        assert(is_placed(
            after.media_streams@[own.len() + k],
            converted[places[k]],
            next + k,
            subtitle_url(item_id, before.id, next + k, api_key),
            wants_default(before, langs) && k == 0,
        ));
    }
    assert forall|j: int| own.len() < j < after.media_streams@.len() implies (
    #[trigger] after.media_streams@[j]).index == after.media_streams@[j - 1].index + 1 by {
        assert(is_placed(
            after.media_streams@[j - 1],
            converted[places[j - 1 - own.len()]],
            next + (j - 1) - own.len(),
            subtitle_url(item_id, before.id, next + (j - 1) - own.len(), api_key),
            wants_default(before, langs) && j - 1 == own.len(),
        ));
    }
}

/// Every source gets the subtitles, and where there are none no source changes.
pub proof fn every_source_gets_the_subtitles(
    before: Seq<MediaSourceInfo>,
    after: Seq<MediaSourceInfo>,
    subs: Seq<SubtitleInfo>,
    converted: Seq<MediaStream>,
    item_id: MediaId,
    api_key: Seq<char>,
    langs: Seq<String>,
)
    requires
        are_completed(before, after, subs, converted, item_id, api_key, langs),
    ensures
        subs.len() == 0 ==> after == before,
        after.len() == before.len(),
        subs.len() > 0 ==> forall|k: int|
            0 <= k < before.len() ==> is_completed(
                before[k],
                #[trigger] after[k],
                subs,
                converted,
                item_id,
                api_key,
                langs,
            ),
{
}

/// A source has room exactly if the indices of all its subtitles can be counted.
pub proof fn room_is_for_every_index(
    source: &MediaSourceInfo,
    subs: &Vec<SubtitleInfo>,
    langs: &Vec<String>,
    r: bool,
)
    requires
        call_ensures(check_room, (source, subs, langs), r),
    ensures
        r <==> {
            let count = external_positions(subs@, langs@, source.name, source.path).len();
            &&& source.media_streams@.len() == 0 ==> count - 1 <= i64::MAX
            &&& forall|k: int|
                0 <= k < source.media_streams@.len() ==> (#[trigger] source.media_streams@[k]).index
                    + 1 <= i64::MAX && source.media_streams@[k].index + count <= i64::MAX
        },
{
    highest_index_is_highest(source.media_streams@);
    if let Some(m) = highest_index(source.media_streams@) {
        let k = choose|k: int|
            0 <= k < source.media_streams@.len() && (#[trigger] source.media_streams@[k]).index
                == m;
        assert(source.media_streams@[k].index == m);
    }
}

/// Several sources have room exactly if each of them has, or if there is nothing to
/// put beside them.
pub proof fn all_sources_need_room(
    sources: Seq<MediaSourceInfo>,
    subs: Seq<SubtitleInfo>,
    langs: Seq<String>,
)
    ensures
        subs.len() == 0 ==> have_room(sources, subs, langs),
        subs.len() > 0 ==> (have_room(sources, subs, langs) <==> forall|k: int|
            0 <= k < sources.len() ==> has_room(#[trigger] sources[k], subs, langs)),
{
}

} // verus!
