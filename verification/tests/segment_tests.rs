use remux_server::hls_segment::check_numbers;
use remux_server::hls_segment::get_current_transcoding_index;
use remux_server::hls_segment::hls1_segment;
use remux_server::hls_segment::hls_segment;
use remux_server::hls_segment::hls_segment_flat;
use remux_server::hls_segment::hls_segment_inner;
use remux_server::hls_segment::out_of_reach;
use remux_server::hls_segment::read_segment_number;
use remux_server::hls_segment::restart_params;
use remux_server::hls_segment::SegmentAction;
use remux_server::hls_segment::SegmentEvent;
use remux_server::hls_segment::SegmentRequest;
use remux_server::hls_segment::SegmentStage;
use remux_server::ids::MediaId;
use remux_server::media::VideoRangeType;
use remux_server::transcode::EncodingOptions;
use remux_server::transcode::HlsVideoQuery;
use remux_server::transcode::TranscodeSession;
use remux_server::transcode::TranscodeState;

fn query() -> HlsVideoQuery {
    HlsVideoQuery {
        play_session_id: None,
        media_source_id: None,
        video_codec: None,
        audio_codec: None,
        segment_length: None,
        start_time_ticks: None,
        runtime_ticks: None,
        max_width: None,
        max_height: None,
        video_bit_rate: None,
        audio_bit_rate: None,
        max_streaming_bitrate: None,
        audio_stream_index: None,
        subtitle_stream_index: None,
        subtitle_method: None,
        transcode_reasons: None,
    }
}

fn options() -> EncodingOptions {
    EncodingOptions {
        enable_video_transcoding: None,
        encoding_preset: None,
        hardware_acceleration_type: None,
        vaapi_device: None,
        vaapi_driver: None,
        enable_tonemapping: None,
        enable_vpp_tonemapping: None,
        tonemapping_algorithm: None,
        tonemapping_desat: None,
        tonemapping_peak: None,
        allow_hevc_encoding: None,
        allow_av1_encoding: None,
        h264_crf: None,
        h265_crf: None,
        normalize_audio_loudness: None,
    }
}

fn request(file: &str) -> SegmentRequest {
    let mut q = query();
    q.play_session_id = Some("psid".to_string());
    hls_segment(file, q)
}

fn file(present: bool, extension: &str) -> SegmentEvent {
    SegmentEvent::File { present, extension: Some(extension.to_string()) }
}

fn names(list: &[&str]) -> Vec<String> {
    list.iter().map(|n| n.to_string()).collect()
}

fn transcode(encoder_runs: bool, files: &[&str]) -> SegmentEvent {
    SegmentEvent::Transcode {
        segment_length: 6,
        state: TranscodeState::Running,
        encoder_runs,
        files: names(files),
    }
}

fn refusal(next: (SegmentStage, SegmentAction)) -> String {
    match next {
        (SegmentStage::Finished, SegmentAction::NotFound(text)) => text,
        other => panic!("{:?}", other),
    }
}

fn served(next: (SegmentStage, SegmentAction)) -> &'static str {
    match next {
        (SegmentStage::Finished, SegmentAction::Serve { head }) => {
            assert_eq!(head.status, 200);
            assert_eq!(head.cache_control, Some("public, max-age=86400"));
            assert_eq!(head.allow_origin, None);
            head.content_type.unwrap()
        }
        other => panic!("{:?}", other),
    }
}

#[test]
fn segment_numbers_stand_behind_the_last_underscore() {
    assert_eq!(read_segment_number("segment_00042"), Some(42));
    assert_eq!(read_segment_number("a_b_7"), Some(7));
    assert_eq!(read_segment_number("7"), Some(7));
    assert_eq!(read_segment_number("init"), None);
    assert_eq!(read_segment_number("segment_"), None);
}

#[test]
fn the_highest_segment_counts() {
    let files = names(&["segment_00002.ts", "segment_00010.m4s", "stream.m3u8", "x_99.txt", "init.mp4"]);
    assert_eq!(get_current_transcoding_index(&files), Some(10));
    assert_eq!(get_current_transcoding_index(&names(&["init.mp4", "segment_.ts"])), None);
    assert_eq!(get_current_transcoding_index(&Vec::new()), None);
}

#[test]
fn files_count_under_the_number_they_are_asked_for() {
    for name in ["segment_00005.ts", "a.b_6.m4s", "x_1.m4s.ts"] {
        assert_eq!(
            get_current_transcoding_index(&names(&[name])),
            read_segment_number(&request(name).segment_id)
        );
    }
}

#[test]
fn segments_out_of_reach_are_told_apart() {
    let running = TranscodeState::Running;
    assert!(out_of_reach(3, Some(4), 6, running));
    assert!(!out_of_reach(4, Some(4), 6, running));
    assert!(!out_of_reach(8, Some(4), 6, running));
    assert!(out_of_reach(9, Some(4), 6, running));
    assert!(out_of_reach(5, Some(4), 30, running));
    assert!(!out_of_reach(0, None, 6, running));
    assert!(!out_of_reach(0, None, 6, TranscodeState::Starting));
    assert!(out_of_reach(0, None, 6, TranscodeState::Error));
    assert!(out_of_reach(0, None, 6, TranscodeState::Complete));
    assert!(!out_of_reach(4, Some(4), 6, TranscodeState::Error));
}

#[test]
fn segment_routes_strip_the_extension() {
    assert_eq!(hls_segment("segment_00001.ts", query()).segment_id, "segment_00001");
    assert_eq!(hls_segment_flat("segment_00001.m4s", query()).segment_id, "segment_00001");
    assert_eq!(hls1_segment("main", "init.mp4", query()).segment_id, "init");
    let mut q = query();
    q.runtime_ticks = Some(4);
    assert_eq!(hls1_segment("main", "a.ts", q).query.runtime_ticks, Some(4));
}

#[test]
fn segments_need_a_session_id() {
    let r = hls_segment("segment_1.ts", query());
    assert_eq!(
        refusal(hls_segment_inner(&r, SegmentStage::Start, SegmentEvent::Begin)),
        "PlaySessionId is required"
    );
    let r = request("segment_1.ts");
    assert!(matches!(
        hls_segment_inner(&r, SegmentStage::Start, SegmentEvent::Begin),
        (SegmentStage::Session { .. }, SegmentAction::FindSession)
    ));
}

#[test]
fn the_furthest_segment_is_kept() {
    let r = request("segment_5.ts");
    for (before, wanted) in [(Some(4), Some(5)), (Some(5), None), (Some(9), None), (None, None)] {
        let stage = SegmentStage::Session { play_session_id: "psid".to_string() };
        match hls_segment_inner(&r, stage, SegmentEvent::Session(before)) {
            (
                SegmentStage::Segment { has_session, .. },
                SegmentAction::LookForSegment { furthest },
            ) => {
                assert_eq!(has_session, before.is_some());
                assert_eq!(furthest, wanted);
            }
            other => panic!("{:?}", other),
        }
    }
}

#[test]
fn first_parts_are_waited_for() {
    let r = request("init.mp4");
    let stage = SegmentStage::Session { play_session_id: "psid".to_string() };
    let (mut stage, action) = hls_segment_inner(&r, stage, SegmentEvent::Session(Some(0)));
    assert!(matches!(action, SegmentAction::LookForInit));
    let mut waited = 0;
    loop {
        match hls_segment_inner(&r, stage, file(false, "mp4")) {
            (next, SegmentAction::Wait { millis }) => {
                waited += millis;
                stage = next;
            }
            other => {
                assert_eq!(refusal(other), "fMP4 init segment not ready");
                break;
            }
        }
    }
    assert_eq!(waited, 10_000);
    let stage = SegmentStage::Init { has_session: true, waits: 40 };
    assert_eq!(served(hls_segment_inner(&r, stage, file(true, "mp4"))), "video/mp4");
    let stage = SegmentStage::Init { has_session: false, waits: 0 };
    assert_eq!(
        refusal(hls_segment_inner(&r, stage, file(false, "mp4"))),
        "fMP4 init segment not ready"
    );
}

#[test]
fn segments_that_are_there_are_sent() {
    let r = request("segment_5.ts");
    let stage = || SegmentStage::Segment { play_session_id: "psid".to_string(), has_session: false };
    assert_eq!(served(hls_segment_inner(&r, stage(), file(true, "ts"))), "video/mp2t");
    assert_eq!(served(hls_segment_inner(&r, stage(), file(true, "m4s"))), "video/mp4");
    let bare = SegmentEvent::File { present: true, extension: None };
    assert_eq!(served(hls_segment_inner(&r, stage(), bare)), "video/mp2t");
}

#[test]
fn segments_of_lost_sessions_are_refused() {
    let r = request("segment_5.ts");
    let stage = SegmentStage::Segment { play_session_id: "psid".to_string(), has_session: false };
    assert_eq!(
        refusal(hls_segment_inner(&r, stage, file(false, "ts"))),
        "transcode session psid gone and segment segment_5 not on disk"
    );
}

#[test]
fn missing_segments_lead_to_a_look_at_the_transcode() {
    let stage = || SegmentStage::Segment { play_session_id: "psid".to_string(), has_session: true };
    assert!(matches!(
        hls_segment_inner(&request("segment_5.ts"), stage(), file(false, "ts")),
        (SegmentStage::Transcode { requested: 5 }, SegmentAction::InspectTranscode)
    ));
    assert!(matches!(
        hls_segment_inner(&request("other.ts"), stage(), file(false, "ts")),
        (SegmentStage::Waiting { waits: 0 }, SegmentAction::LookForSegment { furthest: None })
    ));
}

#[test]
fn far_segments_restart_the_encoder() {
    let r = request("segment_20.ts");
    let stage = SegmentStage::Transcode { requested: 20 };
    match hls_segment_inner(&r, stage, transcode(true, &["segment_3.ts"])) {
        (
            SegmentStage::Waiting { waits: 0 },
            SegmentAction::Restart { start_time_ticks, start_time_secs },
        ) => {
            assert_eq!(start_time_ticks, 1_200_000_000);
            assert_eq!(start_time_secs, 120);
        }
        other => panic!("{:?}", other),
    }
    let mut told = request("segment_20.ts");
    told.query.runtime_ticks = Some(1_259_999_999);
    let stage = SegmentStage::Transcode { requested: 20 };
    match hls_segment_inner(&told, stage, transcode(true, &["segment_3.ts"])) {
        (_, SegmentAction::Restart { start_time_ticks, start_time_secs }) => {
            assert_eq!(start_time_ticks, 1_259_999_999);
            assert_eq!(start_time_secs, 125);
        }
        other => panic!("{:?}", other),
    }
    told.query.runtime_ticks = Some(-15_000_000);
    let stage = SegmentStage::Transcode { requested: 20 };
    match hls_segment_inner(&told, stage, transcode(true, &["segment_3.ts"])) {
        (_, SegmentAction::Restart { start_time_secs, .. }) => {
            assert_eq!(start_time_secs, u32::MAX)
        }
        other => panic!("{:?}", other),
    }
}

#[test]
fn encoders_that_do_not_run_are_not_restarted() {
    let r = request("segment_20.ts");
    let stage = SegmentStage::Transcode { requested: 20 };
    assert!(matches!(
        hls_segment_inner(&r, stage, transcode(false, &["segment_3.ts"])),
        (SegmentStage::Waiting { waits: 0 }, SegmentAction::LookForSegment { furthest: None })
    ));
    let stage = SegmentStage::Transcode { requested: 20 };
    assert!(matches!(
        hls_segment_inner(&r, stage, transcode(true, &["segment_18.ts"])),
        (SegmentStage::Waiting { waits: 0 }, SegmentAction::LookForSegment { furthest: None })
    ));
}

#[test]
fn segments_are_waited_for_a_minute() {
    let r = request("segment_5.ts");
    let mut stage = SegmentStage::Waiting { waits: 0 };
    let mut waited = 0;
    loop {
        match hls_segment_inner(&r, stage, file(false, "ts")) {
            (next, SegmentAction::Wait { millis }) => {
                waited += millis;
                stage = next;
            }
            other => {
                assert_eq!(refusal(other), "segment segment_5 not ready after timeout");
                break;
            }
        }
    }
    assert_eq!(waited, 60_000);
    let stage = SegmentStage::Waiting { waits: 120 };
    assert_eq!(served(hls_segment_inner(&r, stage, file(true, "m4s"))), "video/mp4");
}

#[test]
fn restarts_keep_the_session() {
    let session = TranscodeSession {
        id: "psid".to_string(),
        item_id: MediaId { bits: 1 },
        media_source_id: MediaId { bits: 1 },
        input_url: "http://in".to_string(),
        video_codec: "h264".to_string(),
        audio_codec: "copy".to_string(),
        audio_stream_index: Some(1),
        subtitle_stream_index: Some(4),
        burn_subtitle: true,
        segment_length: 6,
        transcode_reasons: None,
        runtime_ticks: 7,
        is_live: true,
        source_video_codec: Some("hevc".to_string()),
        source_audio_codec: Some("aac".to_string()),
        source_video_profile: None,
        source_video_level: None,
        source_video_range_type: Some(VideoRangeType::Hlg),
        source_video_width: None,
        source_video_height: None,
        source_frame_rate: None,
    };
    let mut q = query();
    q.video_bit_rate = Some(2_000_000);
    q.max_height = Some(720);
    q.audio_stream_index = Some(9);
    let p = restart_params(&session, &q, 55, &options());
    assert_eq!(p.input_url, "http://in");
    assert_eq!(p.video_codec, "h264");
    assert_eq!(p.audio_codec, "copy");
    assert_eq!(p.audio_channels, None);
    assert_eq!(p.start_time_ticks, Some(55));
    assert_eq!(p.video_bitrate, Some(2_000_000));
    assert_eq!(p.max_height, Some(720));
    assert_eq!(p.audio_stream_index, Some(1));
    assert_eq!(p.subtitle_stream_index, Some(4));
    assert!(p.burn_subtitle);
    assert_eq!(p.segment_length, 6);
    assert_eq!(p.source_video_codec.as_deref(), Some("hevc"));
    assert_eq!(p.source_audio_codec.as_deref(), Some("aac"));
    assert_eq!(p.source_video_range_type, Some(VideoRangeType::Hlg));
    assert!(!p.is_live);
    assert_eq!(p.settings.h265_crf, 28);
}

#[test]
fn other_segment_events_change_nothing() {
    let r = request("segment_5.ts");
    assert!(matches!(
        hls_segment_inner(&r, SegmentStage::Finished, SegmentEvent::Begin),
        (SegmentStage::Finished, SegmentAction::Ignore)
    ));
}

#[test]
fn segments_that_cannot_be_counted_are_told_apart() {
    let stage = SegmentStage::Transcode { requested: u32::MAX };
    let event = |segment_length: u32, encoder_runs: bool| SegmentEvent::Transcode {
        segment_length,
        state: TranscodeState::Running,
        encoder_runs,
        files: names(&["segment_3.ts"]),
    };
    let mut r = request("segment_4294967295.ts");
    assert!(check_numbers(&r, &stage, &SegmentEvent::Begin));
    assert!(check_numbers(&r, &stage, &event(6, true)));
    assert!(!check_numbers(&r, &stage, &event(0, false)));
    assert!(!check_numbers(&r, &SegmentStage::Finished, &event(0, false)));
    assert!(!check_numbers(&r, &stage, &event(u32::MAX, true)));
    assert!(check_numbers(&r, &stage, &event(u32::MAX, false)));
    r.query.runtime_ticks = Some(0);
    assert!(check_numbers(&r, &stage, &event(u32::MAX, true)));
}
