use remux_server::ids::MediaId;
use remux_server::media::ExternalIds;
use remux_server::media::Media;
use remux_server::media::MediaKind;
use remux_server::media::MediaStream;
use remux_server::media::FrameRate;
use remux_server::media::MediaSourceInfo;
use remux_server::media::MediaStreamType;
use remux_server::media::VideoRangeType;
use remux_server::media::ProbeData;
use remux_server::media::StreamDescriptor;
use remux_server::media::StreamInfo;
use remux_server::media_info::media_info_from_probe;
use remux_server::media_info::tracks_of;
use remux_server::media_info::TrackPayload;
use remux_server::probe::decide_submission;
use remux_server::probe::plan_probe;
use remux_server::probe::ProbeConfig;
use remux_server::probe::ProbeContext;
use remux_server::probe::ProbeEvent;
use remux_server::probe::Submission;
use remux_server::stream_service::LoadEvent;
use remux_server::stream_service::LoadStage;
use remux_server::stream_service::StreamService;
use remux_server::stream_service::StreamServiceConfig;

fn stream(index: i64, type_: Option<MediaStreamType>) -> MediaStream {
    MediaStream {
        index,
        type_,
        codec: None,
        profile: None,
        codec_tag: None,
        comment: None,
        title: None,
        language: None,
        display_title: None,
        delivery_url: None,
        color_primaries: None,
        color_range: None,
        color_space: None,
        color_transfer: None,
        aspect_ratio: None,
        channel_layout: None,
        width: None,
        height: None,
        channels: None,
        sample_rate: None,
        bit_rate: None,
        bit_depth: None,
        rotation: None,
        level: None,
        ref_frames: None,
        dv_profile: None,
        dv_level: None,
        dv_version_major: None,
        dv_version_minor: None,
        dv_bl_signal_compatibility_id: None,
        rpu_present_flag: None,
        bl_present_flag: None,
        el_present_flag: None,
        real_frame_rate: None,
        average_frame_rate: None,
        video_range_type: None,
        is_default: None,
        is_anamorphic: None,
        is_forced: false,
        is_external: false,
        is_hearing_impaired: false,
        is_interlaced: false,
    }
}

fn media(id: u128, kind: MediaKind) -> Media {
    Media {
        id: MediaId { bits: id },
        kind,
        title: "title".to_string(),
        group_id: None,
        stream_info: None,
        probe_data: None,
        runtime: None,
        external_ids: ExternalIds {
            imdb: None,
            series_imdb: None,
            tmdb: None,
            tvdb: None,
            kitsu: None,
        },
        parent_idx: None,
        idx: None,
    }
}

fn info(url: &str) -> StreamInfo {
    StreamInfo {
        descriptor: StreamDescriptor::Http { url: url.to_string() },
        filename: None,
        size: None,
        resolution_tag: None,
        is_p2p: false,
        server_input: url.to_string(),
    }
}

fn probe(streams: Vec<MediaStream>) -> ProbeData {
    ProbeData {
        media_streams: streams,
        video_stream: None,
        audio_stream: None,
        run_time_ticks: None,
    }
}

fn id(bits: u128) -> MediaId {
    MediaId { bits }
}

fn source() -> MediaSourceInfo {
    MediaSourceInfo {
        id: id(100),
        e_tag: id(101),
        name: Some("file.mkv".to_string()),
        path: Some("http://elsewhere".to_string()),
        container: Some("mkv".to_string()),
        size: Some(4_000),
        run_time_ticks: Some(77),
        bitrate: Some(8),
        has_segments: false,
        is_remote: true,
        default_subtitle_stream_index: Some(3),
        media_streams: vec![stream(0, Some(MediaStreamType::Video))],
        remux: None,
    }
}

fn config() -> ProbeConfig {
    ProbeConfig {
        probe_timeout_secs: None,
        probe_timeout_p2p_secs: None,
        auto_next_stream_on_probe_fail: None,
        max_probe_fallback_streams: None,
        remuxdb_enabled: None,
    }
}

fn service(streams: Vec<Media>) -> StreamService {
    let mut s = StreamService::new(StreamServiceConfig {
        item_id: id(1),
        requested_id: None,
        show_ungrouped: true,
        has_filter_rules: false,
        prefer_lower_res_for_transcode: false,
    });
    let _ = s.load(LoadStage::Filtered, LoadEvent::Sources(streams));
    s
}

fn grouped() -> StreamService {
    let mut s = service(Vec::new());
    let stage = LoadStage::LaterStreams {
        group: id(50),
        title: "Best".to_string(),
        candidates: vec![media(10, MediaKind::Stream)],
    };
    let _ = s.load(stage, LoadEvent::LaterStreams(Vec::new()));
    s
}

#[test]
fn probes_have_defaults() {
    let mut first = media(3, MediaKind::Stream);
    first.stream_info = Some(info("http://in"));
    let s = service(vec![first, media(4, MediaKind::Stream)]);
    let sel = s.select_streams();
    let plan = plan_probe(&sel, &config(), 0).unwrap();
    assert_eq!(plan.url.as_deref(), Some("http://in"));
    assert!(!plan.skip_probe);
    assert!(!plan.was_cached);
    assert_eq!(plan.timeout_secs, 20);
    assert!(plan.auto_next);
    assert_eq!(plan.max_retries, 3);
    assert!(plan.restrict_resolution);
    let second = plan_probe(&sel, &config(), 1).unwrap();
    assert_eq!(second.url, None);
    assert!(second.skip_probe);
    assert!(plan_probe(&sel, &config(), 2).is_none());
}

#[test]
fn probes_follow_the_settings() {
    let mut peer = media(3, MediaKind::Stream);
    let mut i = info("magnet");
    i.is_p2p = true;
    peer.stream_info = Some(i);
    let mut p = probe(Vec::new());
    p.video_stream = Some(stream(0, Some(MediaStreamType::Video)));
    peer.probe_data = Some(p);
    let s = service(vec![peer, media(4, MediaKind::Stream)]);
    let sel = s.select_streams();
    let mut c = config();
    assert_eq!(plan_probe(&sel, &c, 0).unwrap().timeout_secs, 60);
    assert!(plan_probe(&sel, &c, 0).unwrap().was_cached);
    c.probe_timeout_p2p_secs = Some(90);
    c.probe_timeout_secs = Some(5);
    c.auto_next_stream_on_probe_fail = Some(false);
    c.max_probe_fallback_streams = Some(0);
    let plan = plan_probe(&sel, &c, 0).unwrap();
    assert_eq!(plan.timeout_secs, 90);
    assert!(!plan.auto_next);
    assert_eq!(plan.max_retries, 0);
    assert_eq!(plan_probe(&sel, &c, 1).unwrap().timeout_secs, 5);
}

#[test]
fn groups_may_fall_back_to_other_resolutions() {
    let s = grouped();
    let sel = s.select_streams();
    assert!(!plan_probe(&sel, &config(), 0).unwrap().restrict_resolution);
}

#[test]
fn probed_sources_are_made_ready() {
    let s = service(vec![media(3, MediaKind::Stream)]);
    let mut candidate = media(3, MediaKind::Stream);
    candidate.stream_info = Some(info("u"));
    let mut effective = media(4, MediaKind::Stream);
    effective.title = "other".to_string();
    let out = s.stamp_source(source(), &candidate, &effective, Some("{}".to_string()));
    assert_eq!(out.id, id(4));
    assert_eq!(out.e_tag, id(4));
    assert_eq!(out.name.as_deref(), Some("other"));
    assert_eq!(out.path.as_deref(), Some("/remux/00000000-0000-0000-0000-000000000004"));
    assert!(out.has_segments);
    assert!(!out.is_remote);
    assert_eq!(out.remux.unwrap().provider_info.as_deref(), Some("{}"));
    assert_eq!(out.container.as_deref(), Some("mkv"));
    assert_eq!(out.size, Some(4_000));
    assert_eq!(out.run_time_ticks, Some(77));
    assert_eq!(out.bitrate, Some(8));
    assert_eq!(out.default_subtitle_stream_index, Some(3));
    assert_eq!(out.media_streams.len(), 1);
}

#[test]
fn grouped_sources_keep_the_id_of_their_group() {
    let effective = media(4, MediaKind::Stream);
    // The group that was asked for.
    let out = grouped().stamp_source(source(), &media(10, MediaKind::Stream), &effective, None);
    assert_eq!(out.id, id(50));
    assert_eq!(out.name.as_deref(), Some("Best"));
    assert_eq!(out.path.as_deref(), Some("/remux/00000000-0000-0000-0000-000000000004"));
    // The group that a stream stands for.
    let mut stands_for = media(3, MediaKind::Stream);
    stands_for.group_id = Some(id(60));
    stands_for.title = "Good".to_string();
    let s = service(vec![media(3, MediaKind::Stream)]);
    let out = s.stamp_source(source(), &stands_for, &effective, Some("{}".to_string()));
    assert_eq!(out.id, id(60));
    assert_eq!(out.e_tag, id(60));
    assert_eq!(out.name.as_deref(), Some("Good"));
    // Without an address there is nothing that a provider said.
    assert_eq!(out.remux.unwrap().provider_info, None);
}

#[test]
fn new_probes_are_told() {
    let m = media(3, MediaKind::Stream);
    let told = decide_submission(&config(), true, &source(), &m, &m, None);
    assert!(matches!(told, Submission::Submit(_)));
}

#[test]
fn other_probes_are_not_told() {
    let m = media(3, MediaKind::Stream);
    let mut known = media(3, MediaKind::Stream);
    let mut p = probe(Vec::new());
    p.video_stream = Some(stream(0, Some(MediaStreamType::Video)));
    known.probe_data = Some(p);
    let mut off = config();
    off.remuxdb_enabled = Some(false);
    let mut sizeless = source();
    sizeless.size = Some(0);
    assert!(matches!(
        decide_submission(&off, true, &source(), &known, &m, None),
        Submission::Cached
    ));
    assert!(matches!(
        decide_submission(&off, true, &source(), &m, &m, None),
        Submission::Disabled
    ));
    assert!(matches!(
        decide_submission(&config(), false, &source(), &m, &m, None),
        Submission::NoDatabase
    ));
    assert!(matches!(
        decide_submission(&config(), true, &sizeless, &m, &m, None),
        Submission::Incomplete
    ));
}

#[test]
fn files_are_told_with_their_size() {
    let mut m = media(3, MediaKind::Stream);
    let mut i = info("u");
    i.size = Some(99);
    m.stream_info = Some(i);
    let mut s = source();
    assert_eq!(media_info_from_probe(&s, &m, None).unwrap().size, 4_000);
    s.size = None;
    assert_eq!(media_info_from_probe(&s, &m, None).unwrap().size, 99);
    s.size = Some(-1);
    assert!(media_info_from_probe(&s, &m, None).is_none());
    s.size = None;
    m.stream_info = None;
    assert!(media_info_from_probe(&s, &m, None).is_none());
}

#[test]
fn torrents_are_told() {
    let mut m = media(3, MediaKind::Stream);
    let mut i = info("u");
    i.filename = Some("film.mkv".to_string());
    i.descriptor =
        StreamDescriptor::Torrent { info_hash: "abcd".to_string(), file_idx: Some(4) };
    m.stream_info = Some(i);
    let told = media_info_from_probe(&source(), &m, None).unwrap();
    assert_eq!(told.torrent_info_hash.as_deref(), Some("abcd"));
    assert_eq!(told.torrent_file_idx, Some(4));
    assert_eq!(told.filename, "film.mkv");
    assert_eq!(told.kind, "movie");
    assert_eq!(told.container, "mkv");
    assert_eq!(told.duration_ticks, 77);
    assert_eq!(told.bitrate, Some(8));
    assert!(told.external_ids.is_none());
}

#[test]
fn titles_stand_in_for_file_names() {
    let m = media(3, MediaKind::Stream);
    let mut s = source();
    s.container = None;
    s.run_time_ticks = None;
    let told = media_info_from_probe(&s, &m, None).unwrap();
    assert_eq!(told.filename, "title");
    assert_eq!(told.torrent_info_hash, None);
    assert_eq!(told.torrent_file_idx, None);
    assert_eq!(told.container, "");
    assert_eq!(told.duration_ticks, 0);
}

#[test]
fn episodes_are_told_with_their_place() {
    let m = media(3, MediaKind::Stream);
    let mut item = media(1, MediaKind::Episode);
    item.parent_idx = Some(2);
    item.idx = Some(5);
    item.external_ids.series_imdb = Some("tt2".to_string());
    item.external_ids.tvdb = Some(9);
    let told = media_info_from_probe(&source(), &m, Some(&item)).unwrap();
    assert_eq!(told.kind, "episode");
    assert_eq!(told.season, Some(2));
    assert_eq!(told.episode, Some(5));
    let ids = told.external_ids.unwrap();
    assert_eq!(ids.imdb_id.as_deref(), Some("tt2"));
    assert_eq!(ids.tmdb_id, None);
    assert_eq!(ids.tvdb_id, Some(9));
    assert_eq!(ids.kitsu_id, None);
    item.kind = MediaKind::Movie;
    item.external_ids.imdb = Some("tt1".to_string());
    let told = media_info_from_probe(&source(), &m, Some(&item)).unwrap();
    assert_eq!(told.kind, "movie");
    assert_eq!(told.season, None);
    assert_eq!(told.episode, None);
    assert_eq!(told.external_ids.unwrap().imdb_id.as_deref(), Some("tt1"));
    let bare = media(1, MediaKind::Episode);
    let told = media_info_from_probe(&source(), &m, Some(&bare)).unwrap();
    assert!(told.external_ids.is_none());
}

#[test]
fn picture_sound_and_subtitles_are_told() {
    let mut video = stream(0, Some(MediaStreamType::Video));
    video.codec = Some("hevc".to_string());
    video.width = Some(3840);
    video.real_frame_rate = Some(FrameRate { bits: 24.0f32.to_bits() });
    video.video_range_type = Some(VideoRangeType::Hdr10Plus);
    video.rpu_present_flag = Some(1);
    video.bl_present_flag = Some(0);
    video.dv_profile = Some(8);
    video.is_default = Some(true);
    let mut audio = stream(1, Some(MediaStreamType::Audio));
    audio.channels = Some(6);
    audio.sample_rate = Some(48_000);
    audio.channel_layout = Some("5.1".to_string());
    let mut subtitle = stream(2, Some(MediaStreamType::Subtitle));
    subtitle.language = Some("eng".to_string());
    subtitle.is_forced = true;
    let streams = vec![
        video,
        stream(7, Some(MediaStreamType::Other)),
        audio,
        stream(8, None),
        subtitle,
    ];
    let tracks = tracks_of(&streams);
    assert_eq!(tracks.len(), 3);
    match &tracks[0] {
        TrackPayload::Video(v) => {
            assert_eq!(v.idx, 0);
            assert_eq!(v.codec, "hevc");
            assert_eq!(v.width, 3840);
            assert_eq!(v.height, 0);
            assert_eq!(v.fps, Some(FrameRate { bits: 24.0f32.to_bits() }));
            assert_eq!(v.avg_fps, None);
            assert!(v.hdr10_plus_present);
            assert!(v.dv_rpu_present);
            assert!(!v.dv_bl_present);
            assert!(!v.dv_el_present);
            assert_eq!(v.dv_profile, Some(8));
            assert!(v.is_default);
            assert!(!v.is_anamorphic);
        }
        other => panic!("{:?}", other),
    }
    match &tracks[1] {
        TrackPayload::Audio(a) => {
            assert_eq!(a.idx, 1);
            assert_eq!(a.codec, "");
            assert_eq!(a.channels, 6);
            assert_eq!(a.sample_rate, 48_000);
            assert_eq!(a.channel_layout.as_deref(), Some("5.1"));
            assert!(!a.is_default);
        }
        other => panic!("{:?}", other),
    }
    match &tracks[2] {
        TrackPayload::Subtitle(s) => {
            assert_eq!(s.idx, 2);
            assert_eq!(s.codec, None);
            assert_eq!(s.language.as_deref(), Some("eng"));
            assert!(s.is_forced);
        }
        other => panic!("{:?}", other),
    }
}

#[test]
fn every_candidate_is_probed_in_turn() {
    let s = service(vec![media(3, MediaKind::Stream), media(4, MediaKind::Stream)]);
    let sel = s.select_streams();
    let context = ProbeContext { config: config(), has_database: true, item: None };
    let mut results = Vec::new();
    let probed = |effective: u128| ProbeEvent::Probed {
        source: source(),
        effective: media(effective, MediaKind::Stream),
        provider_info: None,
    };
    let step = s.probe_candidates(&sel, &context, &mut results, ProbeEvent::Begin);
    assert!(step.submission.is_none());
    assert!(!step.next.unwrap().skip_probe);
    let step = s.probe_candidates(&sel, &context, &mut results, probed(9));
    assert!(matches!(step.submission, Some(Submission::Submit(_))));
    assert!(step.next.unwrap().skip_probe);
    let step = s.probe_candidates(&sel, &context, &mut results, probed(4));
    assert!(step.next.is_none());
    let seen: Vec<(u128, u128, u128)> = results
        .iter()
        .map(|r| (r.stream.id.bits, r.effective_stream.id.bits, r.source.id.bits))
        .collect();
    assert_eq!(seen, vec![(3, 9, 9), (4, 4, 4)]);
    // There is nothing left to probe.
    let step = s.probe_candidates(&sel, &context, &mut results, probed(5));
    assert!(step.submission.is_none());
    assert!(step.next.is_none());
    assert_eq!(results.len(), 2);
}
