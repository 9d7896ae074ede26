use remux_server::ids::MediaId;
use remux_server::media::MediaSourceInfo;
use remux_server::media::MediaStream;
use remux_server::media::MediaStreamType;
use remux_server::media::StreamDescriptor;
use remux_server::media::SubtitleInfo;
use remux_server::subtitle_index::check_room;
use remux_server::subtitle_index::find_external_place;
use remux_server::subtitle_index::find_highest_index;
use remux_server::subtitle_index::first_free_index;
use remux_server::subtitle_index::inject_external_subtitles;
use remux_server::subtitle_index::inject_where_there_is_room;
use remux_server::subtitle_index::subtitle_map_spec;
use remux_server::subtitle_index::write_subtitle_url;

const ITEM: MediaId = MediaId { bits: 1 };
const SOURCE: MediaId = MediaId { bits: 2 };

fn stream(index: i64, type_: Option<MediaStreamType>) -> MediaStream {
    MediaStream {
        index,
        type_,
        codec: None,
        profile: None,
        codec_tag: None,
        comment: None,
        title: None,
        language: None,
        display_title: None,
        delivery_url: None,
        color_primaries: None,
        color_range: None,
        color_space: None,
        color_transfer: None,
        aspect_ratio: None,
        channel_layout: None,
        width: None,
        height: None,
        channels: None,
        sample_rate: None,
        bit_rate: None,
        bit_depth: None,
        rotation: None,
        level: None,
        ref_frames: None,
        dv_profile: None,
        dv_level: None,
        dv_version_major: None,
        dv_version_minor: None,
        dv_bl_signal_compatibility_id: None,
        rpu_present_flag: None,
        bl_present_flag: None,
        el_present_flag: None,
        real_frame_rate: None,
        average_frame_rate: None,
        video_range_type: None,
        is_default: None,
        is_anamorphic: None,
        is_forced: false,
        is_external: false,
        is_hearing_impaired: false,
        is_interlaced: false,
    }
}

fn subtitle(index: i64) -> MediaStream {
    stream(index, Some(MediaStreamType::Subtitle))
}

fn source(streams: Vec<MediaStream>) -> MediaSourceInfo {
    MediaSourceInfo {
        id: SOURCE,
        e_tag: SOURCE,
        name: Some("film".to_string()),
        path: None,
        container: None,
        size: None,
        run_time_ticks: None,
        bitrate: None,
        has_segments: false,
        is_remote: false,
        default_subtitle_stream_index: None,
        media_streams: streams,
        remux: None,
    }
}

fn offer(lang: &str, url: &str) -> SubtitleInfo {
    SubtitleInfo {
        lang: Some(lang.to_string()),
        url: Some(StreamDescriptor::Http { url: url.to_string() }),
    }
}

#[test]
fn the_next_index_lies_behind_the_highest() {
    assert_eq!(first_free_index(&Vec::new()), 0);
    assert_eq!(first_free_index(&vec![stream(4, None), stream(1, None)]), 5);
    assert_eq!(first_free_index(&vec![stream(-5, None)]), -4);
}

#[test]
fn indices_behind_those_of_the_file_are_external() {
    let own = vec![stream(0, None), stream(3, None)];
    assert_eq!(find_external_place(&own, 4), Some(0));
    assert_eq!(find_external_place(&own, 6), Some(2));
    assert_eq!(find_external_place(&own, 3), None);
    assert_eq!(find_external_place(&own, 2), None);
    assert_eq!(find_external_place(&own, -1), None);
    assert_eq!(find_external_place(&Vec::new(), 0), Some(0));
}

#[test]
fn subtitles_have_addresses() {
    assert_eq!(
        write_subtitle_url(ITEM, SOURCE, 7, "key"),
        "/Videos/00000000-0000-0000-0000-000000000001/00000000-0000-0000-0000-000000000002/Subtitles/7/0/Stream.vtt?ApiKey=key"
    );
}

#[test]
fn external_subtitles_are_put_beside_a_source() {
    let subs = vec![offer("fr", "film.srt"), offer("en", "x.srt"), offer("en", "film.srt")];
    let converted = vec![subtitle(100), subtitle(101), subtitle(102)];
    let mut sources = vec![source(vec![stream(0, None), stream(1, None)])];
    inject_external_subtitles(
        &subs,
        &converted,
        &mut sources,
        ITEM,
        "k",
        &vec!["en".to_string()],
    );
    let s = &sources[0];
    assert_eq!(s.media_streams.len(), 4);
    assert_eq!(s.media_streams[0].index, 0);
    assert_eq!(s.media_streams[2].index, 2);
    assert_eq!(s.media_streams[2].is_default, Some(true));
    assert_eq!(
        s.media_streams[2].delivery_url.as_deref(),
        Some(write_subtitle_url(ITEM, SOURCE, 2, "k").as_str())
    );
    assert_eq!(s.media_streams[3].index, 3);
    assert_eq!(s.media_streams[3].is_default, None);
    assert_eq!(s.default_subtitle_stream_index, Some(2));
    // What was put beside the source is found again by its index.
    let own = vec![stream(0, None), stream(1, None)];
    assert_eq!(find_external_place(&own, s.media_streams[2].index), Some(0));
    assert_eq!(find_external_place(&own, s.media_streams[3].index), Some(1));
}

#[test]
fn a_default_subtitle_stays_the_default() {
    let subs = vec![offer("en", "x.srt")];
    let converted = vec![subtitle(0)];
    let mut with_default = source(Vec::new());
    with_default.default_subtitle_stream_index = Some(9);
    let mut sources = vec![with_default, source(Vec::new())];
    inject_external_subtitles(&subs, &converted, &mut sources, ITEM, "k", &Vec::new());
    assert_eq!(sources[0].default_subtitle_stream_index, Some(9));
    assert_eq!(sources[1].default_subtitle_stream_index, None);
    assert_eq!(sources[1].media_streams[0].is_default, None);
}

#[test]
fn nothing_happens_without_subtitles() {
    let mut sources = vec![source(vec![stream(0, None)])];
    inject_external_subtitles(
        &Vec::new(),
        &Vec::new(),
        &mut sources,
        ITEM,
        "k",
        &vec!["en".to_string()],
    );
    assert_eq!(sources[0].media_streams.len(), 1);
    assert_eq!(sources[0].default_subtitle_stream_index, None);
}

#[test]
fn subtitle_streams_are_counted_by_index() {
    let streams = vec![
        subtitle(9),
        stream(0, Some(MediaStreamType::Video)),
        subtitle(2),
        stream(5, None),
        subtitle(4),
    ];
    assert_eq!(subtitle_map_spec(&streams, 2).as_deref(), Some("0:s:0"));
    assert_eq!(subtitle_map_spec(&streams, 4).as_deref(), Some("0:s:1"));
    assert_eq!(subtitle_map_spec(&streams, 9).as_deref(), Some("0:s:2"));
    assert_eq!(subtitle_map_spec(&streams, 0), None);
    assert_eq!(subtitle_map_spec(&streams, 5), None);
    assert_eq!(subtitle_map_spec(&streams, 3), None);
}

#[test]
fn the_highest_index_is_found() {
    assert_eq!(find_highest_index(&Vec::new()), None);
    assert_eq!(find_highest_index(&vec![stream(-3, None), stream(-7, None)]), Some(-3));
}

#[test]
fn subtitles_are_only_put_where_there_is_room() {
    let langs = vec!["en".to_string()];
    let subs = vec![offer("en", "a.srt"), offer("fr", "b.srt"), offer("en", "c.srt")];
    let converted = vec![subtitle(0), subtitle(0), subtitle(0)];
    let near = |index: i64| source(vec![stream(index, None)]);
    // Two subtitles are wanted, so two indices are needed.
    assert!(check_room(&near(i64::MAX - 2), &subs, &langs));
    assert!(!check_room(&near(i64::MAX - 1), &subs, &langs));
    assert!(!check_room(&near(i64::MAX), &Vec::new(), &langs));

    let mut fits = vec![near(i64::MAX - 2)];
    assert!(inject_where_there_is_room(&subs, &converted, &mut fits, ITEM, "k", &langs));
    let indices: Vec<i64> = fits[0].media_streams.iter().map(|s| s.index).collect();
    assert_eq!(indices, vec![i64::MAX - 2, i64::MAX - 1, i64::MAX]);

    let mut full = vec![near(0), near(i64::MAX - 1)];
    assert!(!inject_where_there_is_room(&subs, &converted, &mut full, ITEM, "k", &langs));
    assert_eq!(full[0].media_streams.len(), 1);
    assert_eq!(full[1].media_streams.len(), 1);

    let mut untouched = vec![near(i64::MAX)];
    let none = Vec::new();
    assert!(inject_where_there_is_room(&none, &Vec::new(), &mut untouched, ITEM, "k", &langs));
    assert_eq!(untouched[0].media_streams.len(), 1);
}
