use remux_server::ids::MediaId;
use remux_server::media::ExternalIds;
use remux_server::media::Media;
use remux_server::media::MediaKind;
use remux_server::media::MediaStream;
use remux_server::media::FrameRate;
use remux_server::media::MediaStreamType;
use remux_server::media::VideoRangeType;
use remux_server::media::ProbeData;
use remux_server::media::StreamDescriptor;
use remux_server::media::StreamInfo;
use remux_server::hls_session::choose_audio_codec;
use remux_server::hls_session::choose_video_bitrate;
use remux_server::hls_session::choose_video_codec;
use remux_server::hls_session::count_source_ticks;
use remux_server::hls_session::create_hls_session;
use remux_server::hls_session::play_session_of;
use remux_server::hls_session::PlaySource;
use remux_server::hls_session::SessionAction;
use remux_server::hls_session::SessionEvent;
use remux_server::hls_session::SessionRequest;
use remux_server::hls_session::SessionStage;
use remux_server::transcode::audio_channels;
use remux_server::transcode::chosen_stream;
use remux_server::transcode::narrowed;
use remux_server::transcode::narrowed_signed;
use remux_server::transcode::seconds_to_ticks;
use remux_server::transcode::EncoderSettings;
use remux_server::transcode::EncodingOptions;
use remux_server::transcode::FloatSetting;
use remux_server::transcode::HlsVideoQuery;
use remux_server::transcode::SubtitleDeliveryMethod;
use remux_server::transcode::TranscodeParams;
use remux_server::transcode::TranscodeSession;

const ITEM: MediaId = MediaId { bits: 1 };

fn stream(index: i64, type_: Option<MediaStreamType>) -> MediaStream {
    MediaStream {
        index,
        type_,
        codec: None,
        profile: None,
        codec_tag: None,
        comment: None,
        title: None,
        language: None,
        display_title: None,
        delivery_url: None,
        color_primaries: None,
        color_range: None,
        color_space: None,
        color_transfer: None,
        aspect_ratio: None,
        channel_layout: None,
        width: None,
        height: None,
        channels: None,
        sample_rate: None,
        bit_rate: None,
        bit_depth: None,
        rotation: None,
        level: None,
        ref_frames: None,
        dv_profile: None,
        dv_level: None,
        dv_version_major: None,
        dv_version_minor: None,
        dv_bl_signal_compatibility_id: None,
        rpu_present_flag: None,
        bl_present_flag: None,
        el_present_flag: None,
        real_frame_rate: None,
        average_frame_rate: None,
        video_range_type: None,
        is_default: None,
        is_anamorphic: None,
        is_forced: false,
        is_external: false,
        is_hearing_impaired: false,
        is_interlaced: false,
    }
}

fn media(id: u128, kind: MediaKind) -> Media {
    Media {
        id: MediaId { bits: id },
        kind,
        title: "title".to_string(),
        group_id: None,
        stream_info: None,
        probe_data: None,
        runtime: None,
        external_ids: ExternalIds {
            imdb: None,
            series_imdb: None,
            tmdb: None,
            tvdb: None,
            kitsu: None,
        },
        parent_idx: None,
        idx: None,
    }
}

fn info(url: &str) -> StreamInfo {
    StreamInfo {
        descriptor: StreamDescriptor::Http { url: url.to_string() },
        filename: None,
        size: None,
        resolution_tag: None,
        is_p2p: false,
        server_input: url.to_string(),
    }
}

fn probe(streams: Vec<MediaStream>) -> ProbeData {
    ProbeData {
        media_streams: streams,
        video_stream: None,
        audio_stream: None,
        run_time_ticks: None,
    }
}

fn query() -> HlsVideoQuery {
    HlsVideoQuery {
        play_session_id: None,
        media_source_id: None,
        video_codec: None,
        audio_codec: None,
        segment_length: None,
        start_time_ticks: None,
        runtime_ticks: None,
        max_width: None,
        max_height: None,
        video_bit_rate: None,
        audio_bit_rate: None,
        max_streaming_bitrate: None,
        audio_stream_index: None,
        subtitle_stream_index: None,
        subtitle_method: None,
        transcode_reasons: None,
    }
}

fn options() -> EncodingOptions {
    EncodingOptions {
        enable_video_transcoding: None,
        encoding_preset: None,
        hardware_acceleration_type: None,
        vaapi_device: None,
        vaapi_driver: None,
        enable_tonemapping: None,
        enable_vpp_tonemapping: None,
        tonemapping_algorithm: None,
        tonemapping_desat: None,
        tonemapping_peak: None,
        allow_hevc_encoding: None,
        allow_av1_encoding: None,
        h264_crf: None,
        h265_crf: None,
        normalize_audio_loudness: None,
    }
}

fn request(query: HlsVideoQuery) -> SessionRequest {
    SessionRequest {
        item_id: ITEM,
        play_session_id: "psid".to_string(),
        query,
        options: options(),
    }
}

fn playable(id: u128, kind: MediaKind) -> Media {
    let mut m = media(id, kind);
    m.stream_info = Some(info("http://in"));
    m.runtime = Some(100);
    m
}

fn source() -> PlaySource {
    PlaySource {
        input_url: "u".to_string(),
        is_channel: false,
        runtime: None,
        probed_ticks: None,
        video: None,
        audio: None,
    }
}

fn started(next: (SessionStage, SessionAction)) -> (TranscodeSession, TranscodeParams) {
    match next {
        (SessionStage::Finished, SessionAction::StartTranscode { session, params }) => {
            (session, params)
        }
        other => panic!("{:?}", other),
    }
}

fn refusal(next: (SessionStage, SessionAction)) -> &'static str {
    match next {
        (SessionStage::Finished, SessionAction::NotFound(text)) => text,
        other => panic!("{:?}", other),
    }
}

#[test]
fn play_sessions_are_given_or_new() {
    let mut q = query();
    assert_eq!(play_session_of(&q, MediaId { bits: 0xa }), format!("{}a", "0".repeat(31)));
    q.play_session_id = Some("mine".to_string());
    assert_eq!(play_session_of(&q, MediaId { bits: 0xa }), "mine");
}

#[test]
fn running_transcodes_go_on() {
    let r = request(query());
    assert!(matches!(
        create_hls_session(&r, SessionStage::Start, SessionEvent::Running(true)),
        (SessionStage::Finished, SessionAction::Reuse)
    ));
    assert!(matches!(
        create_hls_session(&r, SessionStage::Start, SessionEvent::Running(false)),
        (SessionStage::Media, SessionAction::FindMedia { id: ITEM })
    ));
}

#[test]
fn seeks_stop_the_running_transcode() {
    let mut q = query();
    q.start_time_ticks = Some(1);
    q.media_source_id = Some(MediaId { bits: 9 });
    let r = request(q);
    let (stage, action) =
        create_hls_session(&r, SessionStage::Start, SessionEvent::Running(true));
    assert!(matches!(action, SessionAction::StopTranscode));
    assert!(matches!(
        create_hls_session(&r, stage, SessionEvent::Running(false)),
        (SessionStage::Media, SessionAction::FindMedia { id: MediaId { bits: 9 } })
    ));
    // Another request may have made one in between.
    assert!(matches!(
        create_hls_session(&r, SessionStage::Stopped, SessionEvent::Running(true)),
        (SessionStage::Finished, SessionAction::Reuse)
    ));
    let mut at_start = query();
    at_start.start_time_ticks = Some(0);
    assert!(matches!(
        create_hls_session(&request(at_start), SessionStage::Start, SessionEvent::Running(true)),
        (_, SessionAction::Reuse)
    ));
}

#[test]
fn missing_media_is_refused() {
    let r = request(query());
    let none = create_hls_session(&r, SessionStage::Media, SessionEvent::Media(None));
    assert_eq!(refusal(none), "media not found");
    let empty_group = create_hls_session(
        &r,
        SessionStage::Group { runtime: None },
        SessionEvent::Streams(Vec::new()),
    );
    assert_eq!(refusal(empty_group), "no streams available for this group");
    let no_source = create_hls_session(
        &r,
        SessionStage::Streams { runtime: None, of_track: false },
        SessionEvent::Streams(Vec::new()),
    );
    assert_eq!(refusal(no_source), "no playable source found");
    let no_track = create_hls_session(
        &r,
        SessionStage::Streams { runtime: None, of_track: true },
        SessionEvent::Streams(Vec::new()),
    );
    assert_eq!(refusal(no_track), "no stream found for track");
    let no_url = create_hls_session(
        &r,
        SessionStage::Media,
        SessionEvent::Media(Some(media(1, MediaKind::Stream))),
    );
    assert_eq!(refusal(no_url), "media source has no URL");
}

#[test]
fn items_are_played_through_their_streams() {
    let r = request(query());
    for (kind, track) in
        [(MediaKind::Movie, false), (MediaKind::Episode, false), (MediaKind::Track, true)]
    {
        let event = SessionEvent::Media(Some(playable(5, kind)));
        match create_hls_session(&r, SessionStage::Media, event) {
            (SessionStage::Streams { runtime, of_track }, SessionAction::FindStreams { of }) => {
                assert_eq!(runtime, Some(100));
                assert_eq!(of_track, track);
                assert_eq!(of, MediaId { bits: 5 });
            }
            other => panic!("{:?}", other),
        }
    }
}

#[test]
fn groups_are_played_through_their_first_stream() {
    let r = request(query());
    let event = SessionEvent::Media(Some(playable(5, MediaKind::StreamGroup)));
    let (stage, action) = create_hls_session(&r, SessionStage::Media, event);
    assert!(matches!(
        action,
        SessionAction::FindGroupStreams { group: MediaId { bits: 5 } }
    ));
    let mut first = playable(6, MediaKind::Stream);
    first.runtime = None;
    let streams = SessionEvent::Streams(vec![first, playable(7, MediaKind::Stream)]);
    let (session, _) = started(create_hls_session(&r, stage, streams));
    // The running time of the group stands in for that of the stream.
    assert_eq!(session.runtime_ticks, 1_000_000_000);
    // A film in a group is played through its own streams.
    let film = SessionEvent::Streams(vec![playable(8, MediaKind::Movie)]);
    assert!(matches!(
        create_hls_session(&r, SessionStage::Group { runtime: None }, film),
        (_, SessionAction::FindStreams { of: MediaId { bits: 8 } })
    ));
}

#[test]
fn the_wanted_stream_is_played() {
    let mut q = query();
    q.media_source_id = Some(MediaId { bits: 7 });
    let r = request(q);
    let mut wanted = playable(7, MediaKind::Stream);
    wanted.stream_info = Some(info("http://wanted"));
    let streams = vec![playable(6, MediaKind::Stream), wanted];
    let stage = SessionStage::Streams { runtime: None, of_track: false };
    match create_hls_session(&r, stage, SessionEvent::Streams(streams)) {
        (SessionStage::Parent { source }, SessionAction::FindParent) => {
            assert_eq!(source.input_url, "http://wanted");
        }
        other => panic!("{:?}", other),
    }
    // An unknown one leads to the first.
    let stage = SessionStage::Streams { runtime: None, of_track: false };
    let streams = vec![playable(6, MediaKind::Stream)];
    match create_hls_session(&r, stage, SessionEvent::Streams(streams)) {
        (SessionStage::Parent { source }, _) => assert_eq!(source.input_url, "http://in"),
        other => panic!("{:?}", other),
    }
}

#[test]
fn channels_are_live() {
    let mut q = query();
    q.audio_codec = Some("copy".to_string());
    let r = request(q);
    let event = SessionEvent::Media(Some(playable(1, MediaKind::TvChannel)));
    let (session, params) = started(create_hls_session(&r, SessionStage::Media, event));
    assert!(session.is_live);
    assert!(params.is_live);
    assert_eq!(session.runtime_ticks, 0);
    assert_eq!(session.audio_codec, "aac");
    assert_eq!(params.audio_channels, Some(2));
}

#[test]
fn streams_of_channels_are_live() {
    for (kind, live) in [
        (Some(MediaKind::TvChannel), true),
        (Some(MediaKind::Movie), false),
        (None, false),
    ] {
        let mut s = source();
        s.runtime = Some(3);
        let next = create_hls_session(
            &request(query()),
            SessionStage::Parent { source: s },
            SessionEvent::Parent(kind),
        );
        let (session, _) = started(next);
        assert_eq!(session.is_live, live);
        assert_eq!(session.runtime_ticks, if live { 0 } else { 30_000_000 });
    }
}

#[test]
fn running_times_fall_back_to_the_item() {
    let r = request(query());
    let next = create_hls_session(
        &r,
        SessionStage::Parent { source: source() },
        SessionEvent::Parent(None),
    );
    let stage = match next {
        (stage, SessionAction::FindItemRuntime) => stage,
        other => panic!("{:?}", other),
    };
    let (session, _) = started(create_hls_session(&r, stage, SessionEvent::ItemRuntime(Some(2))));
    assert_eq!(session.runtime_ticks, 20_000_000);
    for runtime in [None, Some(0), Some(-4), Some(i64::MAX)] {
        let stage = SessionStage::ItemRuntime { source: source() };
        let (session, _) =
            started(create_hls_session(&r, stage, SessionEvent::ItemRuntime(runtime)));
        assert_eq!(session.runtime_ticks, 0);
    }
}

#[test]
fn the_longer_running_time_counts() {
    let mut s = source();
    assert_eq!(count_source_ticks(&s), None);
    s.runtime = Some(10);
    assert_eq!(count_source_ticks(&s), Some(100_000_000));
    s.probed_ticks = Some(100_000_001);
    assert_eq!(count_source_ticks(&s), Some(100_000_001));
    s.probed_ticks = Some(99_999_999);
    assert_eq!(count_source_ticks(&s), Some(100_000_000));
    s.runtime = Some(0);
    assert_eq!(count_source_ticks(&s), Some(99_999_999));
    s.probed_ticks = Some(-1);
    assert_eq!(count_source_ticks(&s), None);
    s.runtime = Some(i64::MAX);
    assert_eq!(count_source_ticks(&s), None);
}

#[test]
fn pictures_are_copied_or_encoded() {
    let mut q = query();
    let mut o = options();
    assert_eq!(choose_video_codec(&q, &o), "copy");
    q.video_codec = Some("hevc".to_string());
    assert_eq!(choose_video_codec(&q, &o), "h264");
    o.enable_video_transcoding = Some(false);
    assert_eq!(choose_video_codec(&q, &o), "copy");
}

#[test]
fn main_profile_sound_is_encoded() {
    let mut q = query();
    assert_eq!(choose_audio_codec(&q, &None, false), "aac");
    q.audio_codec = Some("copy".to_string());
    assert_eq!(choose_audio_codec(&q, &None, false), "copy");
    let mut audio = stream(1, Some(MediaStreamType::Audio));
    audio.codec = Some("AAC".to_string());
    audio.profile = Some("MAIN".to_string());
    assert_eq!(choose_audio_codec(&q, &Some(audio.clone()), false), "aac");
    audio.profile = Some("LC".to_string());
    audio.display_title = Some("Main - Stereo".to_string());
    assert_eq!(choose_audio_codec(&q, &Some(audio.clone()), false), "copy");
    audio.profile = None;
    assert_eq!(choose_audio_codec(&q, &Some(audio.clone()), false), "aac");
    audio.codec = Some("ac3".to_string());
    assert_eq!(choose_audio_codec(&q, &Some(audio.clone()), false), "copy");
    assert_eq!(choose_audio_codec(&q, &Some(audio), true), "aac");
    q.audio_codec = Some("opus".to_string());
    assert_eq!(choose_audio_codec(&q, &None, true), "opus");
}

#[test]
fn bit_rates_are_capped() {
    let mut q = query();
    let mut video = stream(0, Some(MediaStreamType::Video));
    assert_eq!(choose_video_bitrate(&q, &None), None);
    assert_eq!(choose_video_bitrate(&q, &Some(video.clone())), None);
    video.bit_rate = Some(9_000_000);
    assert_eq!(choose_video_bitrate(&q, &Some(video.clone())), Some(9_000_000));
    q.video_bit_rate = Some(5_000_000);
    assert_eq!(choose_video_bitrate(&q, &Some(video.clone())), Some(5_000_000));
    q.max_streaming_bitrate = Some(3_000_000);
    assert_eq!(choose_video_bitrate(&q, &Some(video.clone())), Some(3_000_000));
    q.video_bit_rate = Some(1_000_000);
    assert_eq!(choose_video_bitrate(&q, &Some(video)), Some(1_000_000));
}

#[test]
fn sessions_carry_what_the_probe_says() {
    let mut q = query();
    q.segment_length = Some(3);
    q.audio_stream_index = Some(-1);
    q.subtitle_stream_index = Some(-1);
    q.subtitle_method = Some(SubtitleDeliveryMethod::Encode);
    q.transcode_reasons = Some("VideoCodecNotSupported".to_string());
    q.max_width = Some(1280);
    q.audio_bit_rate = Some(128_000);
    let r = request(q);
    let mut video = stream(0, Some(MediaStreamType::Video));
    video.codec = Some("hevc".to_string());
    video.profile = Some("Main 10".to_string());
    video.level = Some(153);
    video.width = Some(3840);
    video.height = Some(2160);
    video.video_range_type = Some(VideoRangeType::Hdr10);
    video.real_frame_rate = Some(FrameRate { bits: 24.0f32.to_bits() });
    let mut audio = stream(1, Some(MediaStreamType::Audio));
    audio.codec = Some("dts".to_string());
    let mut m = playable(1, MediaKind::Stream);
    let mut p = probe(Vec::new());
    p.video_stream = Some(video);
    p.audio_stream = Some(audio);
    p.run_time_ticks = Some(5);
    m.probe_data = Some(p);
    let (session, params) =
        started(create_hls_session(&r, SessionStage::Media, SessionEvent::Media(Some(m))));
    assert_eq!(session.id, "psid");
    assert_eq!(session.item_id, ITEM);
    assert_eq!(session.media_source_id, ITEM);
    assert_eq!(session.input_url, "http://in");
    assert_eq!(session.segment_length, 3);
    assert_eq!(session.audio_stream_index, None);
    assert_eq!(session.subtitle_stream_index, Some(-1));
    assert!(session.burn_subtitle);
    assert_eq!(session.transcode_reasons.as_deref(), Some("VideoCodecNotSupported"));
    assert_eq!(session.runtime_ticks, 1_000_000_000);
    assert_eq!(session.source_video_codec.as_deref(), Some("hevc"));
    assert_eq!(session.source_audio_codec.as_deref(), Some("dts"));
    assert_eq!(session.source_video_profile.as_deref(), Some("Main 10"));
    assert_eq!(session.source_video_level, Some(153));
    assert_eq!(session.source_video_range_type, Some(VideoRangeType::Hdr10));
    assert_eq!(session.source_video_width, Some(3840));
    assert_eq!(session.source_video_height, Some(2160));
    assert_eq!(session.source_frame_rate, Some(FrameRate { bits: 24.0f32.to_bits() }));
    assert_eq!(params.input_url, session.input_url);
    assert_eq!(params.video_codec, "copy");
    assert_eq!(params.audio_codec, "aac");
    assert_eq!(params.max_width, Some(1280));
    assert_eq!(params.max_height, None);
    assert_eq!(params.audio_bitrate, Some(128_000));
    assert_eq!(params.start_time_ticks, None);
    assert_eq!(params.source_video_codec.as_deref(), Some("hevc"));
    assert_eq!(params.source_video_range_type, Some(VideoRangeType::Hdr10));
}

#[test]
fn segments_last_six_seconds() {
    let event = SessionEvent::Media(Some(playable(1, MediaKind::Stream)));
    let (session, _) =
        started(create_hls_session(&request(query()), SessionStage::Media, event));
    assert_eq!(session.segment_length, 6);
}

#[test]
fn encoder_settings_have_defaults() {
    let s = EncoderSettings::new(&options());
    assert_eq!(s.encoding_preset, None);
    assert_eq!(s.hardware_acceleration_type, "");
    assert_eq!(s.vaapi_device, "/dev/dri/renderD128");
    assert_eq!(s.vaapi_driver, "");
    assert!(!s.enable_tonemapping);
    assert!(!s.enable_vpp_tonemapping);
    assert_eq!(s.tonemapping_algorithm, "hable");
    assert_eq!(s.tonemapping_desat, FloatSetting { bits: 0.0f64.to_bits() });
    assert_eq!(s.tonemapping_peak, FloatSetting { bits: 0.0f64.to_bits() });
    assert!(!s.allow_hevc_encoding);
    assert!(!s.allow_av1_encoding);
    assert_eq!(s.h264_crf, 23);
    assert_eq!(s.h265_crf, 28);
    assert!(s.normalize_audio_loudness);
}

#[test]
fn encoder_settings_follow_the_options() {
    let mut o = options();
    o.encoding_preset = Some("fast".to_string());
    o.vaapi_device = Some("/dev/x".to_string());
    o.h264_crf = Some(18);
    o.normalize_audio_loudness = Some(false);
    let s = EncoderSettings::new(&o);
    assert_eq!(s.encoding_preset.as_deref(), Some("fast"));
    assert_eq!(s.vaapi_device, "/dev/x");
    assert_eq!(s.h264_crf, 18);
    assert!(!s.normalize_audio_loudness);
}

#[test]
fn numbers_of_a_query_are_narrowed() {
    assert_eq!(narrowed(Some(640)), Some(640));
    assert_eq!(narrowed(Some(-1)), Some(u32::MAX));
    assert_eq!(narrowed(Some(1 << 32)), Some(0));
    assert_eq!(narrowed(None), None);
    assert_eq!(narrowed_signed(Some(-1)), Some(-1));
    assert_eq!(narrowed_signed(Some(0xffff_ffff)), Some(-1));
    assert_eq!(chosen_stream(Some(2)), Some(2));
    assert_eq!(chosen_stream(Some(-1)), None);
    assert_eq!(chosen_stream(Some(0xffff_ffff)), None);
    assert_eq!(chosen_stream(None), None);
}

#[test]
fn seconds_are_counted_in_ticks() {
    assert_eq!(seconds_to_ticks(7), Some(70_000_000));
    assert_eq!(seconds_to_ticks(-1), Some(-10_000_000));
    assert_eq!(seconds_to_ticks(922_337_203_685), Some(9_223_372_036_850_000_000));
    assert_eq!(seconds_to_ticks(922_337_203_686), None);
}

#[test]
fn encoded_sound_is_stereo() {
    assert_eq!(audio_channels("copy"), None);
    assert_eq!(audio_channels("aac"), Some(2));
}

#[test]
fn other_session_events_change_nothing() {
    assert!(matches!(
        create_hls_session(&request(query()), SessionStage::Media, SessionEvent::Running(true)),
        (SessionStage::Media, SessionAction::Ignore)
    ));
}
