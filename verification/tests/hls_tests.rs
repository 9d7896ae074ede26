use remux_server::hls::live_hls_video;
use remux_server::hls::master_hls_video;
use remux_server::hls::resolve_live_audio_codec;
use remux_server::hls::should_serve_ffmpeg_variant_playlist;
use remux_server::hls::strip_segment_extension;
use remux_server::hls::variant_hls_video;
use remux_server::hls::variant_hls_video_alt;
use remux_server::hls::variant_hls_video_inner;
use remux_server::hls::VariantAction;
use remux_server::hls::VariantEvent;
use remux_server::hls::VariantSession;
use remux_server::hls::VariantStage;
use remux_server::transcode::HlsVideoQuery;

fn query() -> HlsVideoQuery {
    HlsVideoQuery {
        play_session_id: None,
        media_source_id: None,
        video_codec: None,
        audio_codec: None,
        segment_length: None,
        start_time_ticks: None,
        runtime_ticks: None,
        max_width: None,
        max_height: None,
        video_bit_rate: None,
        audio_bit_rate: None,
        max_streaming_bitrate: None,
        audio_stream_index: None,
        subtitle_stream_index: None,
        subtitle_method: None,
        transcode_reasons: None,
    }
}

fn with_session() -> HlsVideoQuery {
    let mut q = query();
    q.play_session_id = Some("s1".to_string());
    q
}

fn session(is_live: bool) -> VariantSession {
    VariantSession { id: "s1".to_string(), is_live, use_fmp4: false, start_time_secs: 0 }
}

#[test]
fn live_channel_forces_aac_over_copy() {
    assert_eq!(resolve_live_audio_codec(true, "copy"), "aac");
    assert_eq!(resolve_live_audio_codec(false, "copy"), "copy");
    assert_eq!(resolve_live_audio_codec(true, "aac"), "aac");
    assert_eq!(resolve_live_audio_codec(true, "ac3"), "ac3");
}

#[test]
fn always_serves_ffmpeg_variant_playlist() {
    assert!(should_serve_ffmpeg_variant_playlist(false, false, 0));
    assert!(should_serve_ffmpeg_variant_playlist(false, false, 1));
    assert!(should_serve_ffmpeg_variant_playlist(false, true, 0));
    assert!(should_serve_ffmpeg_variant_playlist(true, false, 0));
}

#[test]
fn segment_extensions_are_stripped() {
    assert_eq!(strip_segment_extension("segment_00001.ts"), "segment_00001");
    assert_eq!(strip_segment_extension("init.mp4"), "init");
    assert_eq!(strip_segment_extension("a.b.m4s"), "a.b");
    assert_eq!(strip_segment_extension("segment"), "segment");
}

#[test]
fn master_playlists_are_not_cached() {
    let reply = master_hls_video("#EXTM3U".to_string());
    assert_eq!(reply.body, "#EXTM3U");
    assert_eq!(reply.head.status, 200);
    assert_eq!(reply.head.content_type, Some("application/vnd.apple.mpegurl"));
    assert_eq!(reply.head.cache_control, Some("no-cache, no-store"));
    assert_eq!(reply.head.allow_origin, None);
}

#[test]
fn live_requests_go_on_with_their_session() {
    let mut q = query();
    q.max_width = Some(640);
    q.play_session_id = Some("old".to_string());
    let live = live_hls_video(q, "new".to_string());
    assert_eq!(live.play_session_id.as_deref(), Some("new"));
    assert_eq!(live.max_width, Some(640));
    assert!(matches!(variant_hls_video(&live).1, VariantAction::FindSession));
}

#[test]
fn variant_playlists_need_a_session() {
    assert!(matches!(
        variant_hls_video(&query()),
        (VariantStage::Finished, VariantAction::NotFound("PlaySessionId is required"))
    ));
    assert!(matches!(
        variant_hls_video_alt(&query()).1,
        VariantAction::NotFound("PlaySessionId is required")
    ));
    let q = with_session();
    let (stage, action) = variant_hls_video_alt(&q);
    assert!(matches!(action, VariantAction::FindSession));
    assert!(matches!(
        variant_hls_video_inner(&q, stage, VariantEvent::Session(None)),
        (VariantStage::Finished, VariantAction::NotFound("transcode session not found"))
    ));
}

#[test]
fn variant_playlists_wait_for_a_segment() {
    let q = with_session();
    let (stage, action) =
        variant_hls_video_inner(&q, VariantStage::Session, VariantEvent::Session(Some(session(false))));
    assert!(matches!(action, VariantAction::ReadPlaylist));
    let (stage, action) = variant_hls_video_inner(&q, stage, VariantEvent::Playlist(None));
    assert!(matches!(action, VariantAction::Wait { millis: 500 }));
    let started = VariantEvent::Playlist(Some("#EXTM3U\n".to_string()));
    let (stage, action) = variant_hls_video_inner(&q, stage, started);
    assert!(matches!(action, VariantAction::Wait { millis: 500 }));
    let ready = VariantEvent::Playlist(Some("#EXTINF:6,\na_0.ts\n".to_string()));
    match variant_hls_video_inner(&q, stage, ready) {
        (VariantStage::Finished, VariantAction::Reply(reply)) => {
            assert_eq!(reply.body, "#EXTINF:6,\na_0.ts?PlaySessionId=s1");
            assert_eq!(reply.head.cache_control, Some("no-cache, no-store"));
        }
        other => panic!("{:?}", other),
    }
}

#[test]
fn variant_playlists_are_empty_after_a_while() {
    let q = with_session();
    let stage = VariantStage::Playlist { id: "s1".to_string(), is_live: true };
    match variant_hls_video_inner(&q, stage, VariantEvent::TimedOut) {
        (VariantStage::Finished, VariantAction::Reply(reply)) => assert_eq!(reply.body, ""),
        other => panic!("{:?}", other),
    }
}

#[test]
fn other_playlist_events_change_nothing() {
    let q = with_session();
    assert!(matches!(
        variant_hls_video_inner(&q, VariantStage::Finished, VariantEvent::Begin),
        (VariantStage::Finished, VariantAction::Ignore)
    ));
}
