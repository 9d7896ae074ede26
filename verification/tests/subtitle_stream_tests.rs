use remux_server::ids::MediaId;
use remux_server::media::ExternalIds;
use remux_server::media::Media;
use remux_server::media::MediaKind;
use remux_server::media::MediaStream;
use remux_server::media::MediaStreamType;
use remux_server::media::ProbeData;
use remux_server::media::StreamDescriptor;
use remux_server::media::StreamInfo;
use remux_server::media::SubtitleInfo;
use remux_server::subtitle_stream::check_indices;
use remux_server::subtitle_stream::choose_embedded_format;
use remux_server::subtitle_stream::choose_external_format;
use remux_server::subtitle_stream::descriptor_to_subtitle_url;
use remux_server::subtitle_stream::subtitles_stream;
use remux_server::subtitle_stream::OutputOutcome;
use remux_server::subtitle_stream::Conversion;
use remux_server::subtitle_stream::EmbeddedFormat;
use remux_server::subtitle_stream::ServeError;
use remux_server::subtitle_stream::SubtitleAction;
use remux_server::subtitle_stream::SubtitleBody;
use remux_server::subtitle_stream::SubtitleEvent;
use remux_server::subtitle_stream::SubtitleRequest;
use remux_server::subtitle_stream::SubtitleStage;

fn stream(index: i64, type_: Option<MediaStreamType>) -> MediaStream {
    MediaStream {
        index,
        type_,
        codec: None,
        profile: None,
        codec_tag: None,
        comment: None,
        title: None,
        language: None,
        display_title: None,
        delivery_url: None,
        color_primaries: None,
        color_range: None,
        color_space: None,
        color_transfer: None,
        aspect_ratio: None,
        channel_layout: None,
        width: None,
        height: None,
        channels: None,
        sample_rate: None,
        bit_rate: None,
        bit_depth: None,
        rotation: None,
        level: None,
        ref_frames: None,
        dv_profile: None,
        dv_level: None,
        dv_version_major: None,
        dv_version_minor: None,
        dv_bl_signal_compatibility_id: None,
        rpu_present_flag: None,
        bl_present_flag: None,
        el_present_flag: None,
        real_frame_rate: None,
        average_frame_rate: None,
        video_range_type: None,
        is_default: None,
        is_anamorphic: None,
        is_forced: false,
        is_external: false,
        is_hearing_impaired: false,
        is_interlaced: false,
    }
}

fn media(id: u128, kind: MediaKind) -> Media {
    Media {
        id: MediaId { bits: id },
        kind,
        title: "title".to_string(),
        group_id: None,
        stream_info: None,
        probe_data: None,
        runtime: None,
        external_ids: ExternalIds {
            imdb: None,
            series_imdb: None,
            tmdb: None,
            tvdb: None,
            kitsu: None,
        },
        parent_idx: None,
        idx: None,
    }
}

fn info(url: &str) -> StreamInfo {
    StreamInfo {
        descriptor: StreamDescriptor::Http { url: url.to_string() },
        filename: None,
        size: None,
        resolution_tag: None,
        is_p2p: false,
        server_input: url.to_string(),
    }
}

fn probe(streams: Vec<MediaStream>) -> ProbeData {
    ProbeData {
        media_streams: streams,
        video_stream: None,
        audio_stream: None,
        run_time_ticks: None,
    }
}

fn request(index: i64, format: &str) -> SubtitleRequest {
    SubtitleRequest {
        item_id: MediaId { bits: 1 },
        media_source_id: MediaId { bits: 2 },
        stream_index: index,
        format: format.to_string(),
    }
}

/// A file with a picture at 0 and subtitles at 2 and 3.
fn film() -> Media {
    let mut m = media(2, MediaKind::Stream);
    m.stream_info = Some(info("http://in"));
    m.probe_data = Some(probe(vec![
        stream(0, Some(MediaStreamType::Video)),
        stream(2, Some(MediaStreamType::Subtitle)),
        stream(3, Some(MediaStreamType::Subtitle)),
    ]));
    m
}

fn offers() -> Vec<SubtitleInfo> {
    vec![
        SubtitleInfo {
            lang: Some("fr".to_string()),
            url: Some(StreamDescriptor::Http { url: "fr.srt".to_string() }),
        },
        SubtitleInfo {
            lang: Some("en".to_string()),
            url: Some(StreamDescriptor::Opendal {
                addon_id: MediaId { bits: 77 },
                path: "en.srt".to_string(),
            }),
        },
        SubtitleInfo { lang: Some("de".to_string()), url: None },
    ]
}

fn fetch(
    request: &SubtitleRequest,
    place: usize,
    langs: &[&str],
) -> (SubtitleStage, SubtitleAction) {
    let subs = offers();
    let langs: Vec<String> = langs.iter().map(|l| l.to_string()).collect();
    subtitles_stream(
        request,
        SubtitleStage::Subtitles { place },
        SubtitleEvent::Subtitles { subs: &subs, langs: &langs, name: &None, path: &None },
    )
}

fn failure(next: (SubtitleStage, SubtitleAction)) -> String {
    match next {
        (SubtitleStage::Finished, SubtitleAction::Fail(text)) => text,
        other => panic!("{:?}", other),
    }
}

#[test]
fn external_formats() {
    assert_eq!(choose_external_format("vtt"), (Conversion::WebVtt, "text/vtt; charset=utf-8"));
    assert_eq!(choose_external_format("webvtt"), (Conversion::WebVtt, "text/vtt; charset=utf-8"));
    assert_eq!(choose_external_format("js"), (Conversion::Json, "application/json"));
    assert_eq!(choose_external_format("json"), (Conversion::Keep, "text/plain; charset=utf-8"));
    assert_eq!(choose_external_format("srt"), (Conversion::Keep, "text/plain; charset=utf-8"));
}

#[test]
fn embedded_formats() {
    let vtt = (EmbeddedFormat::Text(Conversion::WebVtt), "text/vtt; charset=utf-8");
    let json = (EmbeddedFormat::Text(Conversion::Json), "application/json; charset=utf-8");
    let text = (EmbeddedFormat::Text(Conversion::Keep), "text/plain; charset=utf-8");
    let ass = (EmbeddedFormat::Ass, "text/plain; charset=utf-8");
    let bytes = (EmbeddedFormat::Pictures, "application/octet-stream");
    assert_eq!(choose_embedded_format("vtt"), vtt);
    assert_eq!(choose_embedded_format("webvtt"), vtt);
    assert_eq!(choose_embedded_format("js"), json);
    assert_eq!(choose_embedded_format("json"), json);
    for format in ["srt", "subrip", "anything"] {
        assert_eq!(choose_embedded_format(format), text);
    }
    assert_eq!(choose_embedded_format("ass"), ass);
    assert_eq!(choose_embedded_format("ssa"), ass);
    assert_eq!(choose_embedded_format("sup"), bytes);
    assert_eq!(choose_embedded_format("pgssub"), bytes);
}

#[test]
fn ass_requests_get_ass() {
    for format in ["ass", "SSA"] {
        let r = request(2, format);
        let film = film();
        let (_, action) = subtitles_stream(&r, SubtitleStage::Stream, SubtitleEvent::Stream(&film));
        assert!(matches!(action, SubtitleAction::LookAtCache { .. }));
        let cached = SubtitleEvent::CachedText(Ok(b"1\n".to_vec()));
        let (stage, action) = subtitles_stream(&r, SubtitleStage::CachedText, cached);
        match action {
            SubtitleAction::ConvertToAss { args, input } => {
                assert_eq!(args, vec!["-f", "srt", "-i", "-", "-c:s", "ass", "-f", "ass", "-"]);
                assert_eq!(input, "1\n");
            }
            other => panic!("{:?}", other),
        }
        let made = OutputOutcome::Exited { success: true, stdout: b"[Script Info]".to_vec() };
        match subtitles_stream(&r, stage, SubtitleEvent::Output(made)) {
            (
                SubtitleStage::Finished,
                SubtitleAction::Reply { head, body: SubtitleBody::Bytes(bytes) },
            ) => {
                assert_eq!(bytes, b"[Script Info]".to_vec());
                assert_eq!(head.status, 200);
                assert_eq!(head.content_type, Some("text/plain; charset=utf-8"));
                assert_eq!(head.cache_control, Some("public, max-age=3600"));
                assert_eq!(head.allow_origin, Some("*"));
            }
            other => panic!("{:?}", other),
        }
    }
}

#[test]
fn failed_conversions_are_answered() {
    let r = request(2, "ass");
    for outcome in [
        OutputOutcome::TimedOut,
        OutputOutcome::NotStarted("x".to_string()),
        OutputOutcome::Exited { success: false, stdout: vec![1] },
    ] {
        match subtitles_stream(&r, SubtitleStage::AssRun, SubtitleEvent::Output(outcome)) {
            (
                SubtitleStage::Finished,
                SubtitleAction::Reply { head, body: SubtitleBody::Note(note) },
            ) => {
                assert_eq!(head.status, 500);
                assert_eq!(note, "subtitle extraction failed");
            }
            other => panic!("{:?}", other),
        }
    }
}

#[test]
fn descriptors_are_addresses() {
    let subs = offers();
    assert_eq!(descriptor_to_subtitle_url(&subs[0], Some("{}".to_string())), "{}");
    assert_eq!(descriptor_to_subtitle_url(&subs[0], None), "");
    assert_eq!(descriptor_to_subtitle_url(&subs[2], Some("{}".to_string())), "");
}

#[test]
fn unknown_items_are_looked_for_as_streams() {
    let next = subtitles_stream(&request(5, "vtt"), SubtitleStage::Item, SubtitleEvent::Item(false));
    assert!(matches!(next, (SubtitleStage::Stream, SubtitleAction::FindStream)));
    let next = subtitles_stream(&request(5, "vtt"), SubtitleStage::Item, SubtitleEvent::Item(true));
    assert!(matches!(next, (SubtitleStage::Source, SubtitleAction::FindSource)));
    let next =
        subtitles_stream(&request(5, "vtt"), SubtitleStage::Source, SubtitleEvent::Source(None));
    assert!(matches!(next, (SubtitleStage::Stream, SubtitleAction::FindStream)));
}

#[test]
fn indices_behind_the_file_lead_to_addons() {
    let film = film();
    for (index, wanted) in [(4, Some(0)), (5, Some(1)), (3, None), (1, None), (0, None)] {
        let next = subtitles_stream(
            &request(index, "vtt"),
            SubtitleStage::Source,
            SubtitleEvent::Source(Some(&film)),
        );
        match (next, wanted) {
            ((SubtitleStage::Subtitles { place }, SubtitleAction::FetchSubtitles), Some(w)) => {
                assert_eq!(place, w)
            }
            ((SubtitleStage::Stream, SubtitleAction::FindStream), None) => {}
            (other, _) => panic!("{:?}", other),
        }
    }
    let bare = media(2, MediaKind::Stream);
    let next = subtitles_stream(
        &request(0, "vtt"),
        SubtitleStage::Source,
        SubtitleEvent::Source(Some(&bare)),
    );
    assert!(matches!(
        next,
        (SubtitleStage::Subtitles { place: 0 }, SubtitleAction::FetchSubtitles)
    ));
}

#[test]
fn external_subtitles_are_read_where_they_are() {
    let r = request(4, "vtt");
    match fetch(&r, 0, &["en", "fr"]) {
        (SubtitleStage::ExternalBytes, SubtitleAction::ReadExternal { position, addon }) => {
            assert_eq!(position, 1);
            assert_eq!(addon, Some(MediaId { bits: 77 }));
        }
        other => panic!("{:?}", other),
    }
    match fetch(&r, 1, &["en", "fr"]) {
        (SubtitleStage::ExternalBytes, SubtitleAction::ReadExternal { position, addon }) => {
            assert_eq!(position, 0);
            assert_eq!(addon, None);
        }
        other => panic!("{:?}", other),
    }
    // Beyond the last one, and one without an address.
    assert!(matches!(fetch(&r, 2, &["en", "fr"]).1, SubtitleAction::FindStream));
    assert!(matches!(fetch(&r, 0, &["de"]).1, SubtitleAction::FindStream));
}

#[test]
fn external_subtitles_are_sent() {
    let next = subtitles_stream(
        &request(4, "VTT"),
        SubtitleStage::ExternalBytes,
        SubtitleEvent::ExternalBytes(Ok(vec![b'h', b'i', 0xff])),
    );
    match next {
        (
            SubtitleStage::Finished,
            SubtitleAction::Reply { head, body: SubtitleBody::Srt { text, conversion } },
        ) => {
            assert_eq!(head.status, 200);
            assert_eq!(head.content_type, Some("text/vtt; charset=utf-8"));
            assert_eq!(head.cache_control, Some("public, max-age=3600"));
            assert_eq!(head.allow_origin, Some("*"));
            assert_eq!(text, "hi\u{fffd}");
            assert_eq!(conversion, Conversion::WebVtt);
        }
        other => panic!("{:?}", other),
    }
}

#[test]
fn external_subtitles_fail_with_their_reasons() {
    let fail = |e: ServeError| {
        failure(subtitles_stream(
            &request(4, "vtt"),
            SubtitleStage::ExternalBytes,
            SubtitleEvent::ExternalBytes(Err(e)),
        ))
    };
    assert_eq!(fail(ServeError::NoAddon), "addon not found for subtitle");
    assert_eq!(fail(ServeError::NoStreamCapability), "addon has no stream capability");
    assert_eq!(fail(ServeError::Refused("Gone".to_string())), "Gone");
    assert_eq!(fail(ServeError::Unreadable("eof".to_string())), "read subtitle bytes: eof");
}

#[test]
fn streams_without_address_or_subtitle_are_refused() {
    let mut m = film();
    let next =
        subtitles_stream(&request(1, "srt"), SubtitleStage::Stream, SubtitleEvent::Stream(&m));
    assert!(matches!(
        next,
        (SubtitleStage::Finished, SubtitleAction::NotFound("subtitle stream not found"))
    ));
    m.stream_info = None;
    let next =
        subtitles_stream(&request(2, "srt"), SubtitleStage::Stream, SubtitleEvent::Stream(&m));
    assert!(matches!(
        next,
        (SubtitleStage::Finished, SubtitleAction::NotFound("media source has no URL"))
    ));
}

#[test]
fn picture_subtitles_are_run_through_ffmpeg() {
    let r = request(3, "SUP");
    let film = film();
    let (stage, action) =
        subtitles_stream(&r, SubtitleStage::Stream, SubtitleEvent::Stream(&film));
    match action {
        SubtitleAction::RunBinary(args) => assert_eq!(
            args,
            vec![
                "-copyts", "-i", "http://in", "-map", "0:s:1", "-an", "-vn", "-c:s", "copy",
                "-f", "sup", "-",
            ]
        ),
        other => panic!("{:?}", other),
    }
    let ran = OutputOutcome::Exited { success: true, stdout: vec![1, 2, 3] };
    match subtitles_stream(&r, stage, SubtitleEvent::Output(ran)) {
        (
            SubtitleStage::Finished,
            SubtitleAction::Reply { head, body: SubtitleBody::Bytes(bytes) },
        ) => {
            assert_eq!(bytes, vec![1, 2, 3]);
            assert_eq!(head.status, 200);
            assert_eq!(head.content_type, Some("application/octet-stream"));
            assert_eq!(head.cache_control, None);
            assert_eq!(head.allow_origin, None);
        }
        other => panic!("{:?}", other),
    }
}

#[test]
fn picture_subtitles_fail_with_their_reasons() {
    let r = request(3, "sup");
    let run = |o: OutputOutcome| {
        subtitles_stream(&r, SubtitleStage::BinaryRun, SubtitleEvent::Output(o))
    };
    assert_eq!(failure(run(OutputOutcome::TimedOut)), "subtitle extraction timed out");
    assert_eq!(
        failure(run(OutputOutcome::NotStarted("x".to_string()))),
        "failed to run ffmpeg: x"
    );
    match run(OutputOutcome::Exited { success: false, stdout: vec![1] }) {
        (
            SubtitleStage::Finished,
            SubtitleAction::Reply { head, body: SubtitleBody::Note(note) },
        ) => {
            assert_eq!(head.status, 500);
            assert_eq!(head.content_type, None);
            assert_eq!(note, "subtitle extraction failed");
        }
        other => panic!("{:?}", other),
    }
}

#[test]
fn text_subtitles_come_from_the_cache() {
    let r = request(2, "js");
    let film = film();
    let (stage, action) =
        subtitles_stream(&r, SubtitleStage::Stream, SubtitleEvent::Stream(&film));
    match action {
        SubtitleAction::LookAtCache { file_name } => {
            assert_eq!(file_name, "00000000-0000-0000-0000-000000000001_2.srt")
        }
        other => panic!("{:?}", other),
    }
    let (stage, action) =
        subtitles_stream(&r, stage, SubtitleEvent::Cache { content: None, batch_done: Some(false) });
    assert!(matches!(action, SubtitleAction::WaitForBatch));
    let (stage, action) = subtitles_stream(&r, stage, SubtitleEvent::BatchWaited);
    match action {
        SubtitleAction::Extract { input_url, map_spec, file_name } => {
            assert_eq!(input_url, "http://in");
            assert_eq!(map_spec, "0:s:0");
            assert_eq!(file_name, "00000000-0000-0000-0000-000000000001_2.srt");
        }
        other => panic!("{:?}", other),
    }
    let (stage, action) = subtitles_stream(&r, stage, SubtitleEvent::Extraction(true));
    assert!(matches!(action, SubtitleAction::ReadCache));
    match subtitles_stream(&r, stage, SubtitleEvent::CachedText(Ok(b"1".to_vec()))) {
        (
            SubtitleStage::Finished,
            SubtitleAction::Reply { head, body: SubtitleBody::Srt { text, conversion } },
        ) => {
            assert_eq!(head.content_type, Some("application/json; charset=utf-8"));
            assert_eq!(head.cache_control, Some("public, max-age=3600"));
            assert_eq!(text, "1");
            assert_eq!(conversion, Conversion::Json);
        }
        other => panic!("{:?}", other),
    }
}

#[test]
fn cached_subtitles_do_not_wait_for_a_batch() {
    let r = request(2, "srt");
    let stage = SubtitleStage::Cache { input_url: "u".to_string(), map_spec: "m".to_string() };
    let event =
        SubtitleEvent::Cache { content: Some(b"x".to_vec()), batch_done: Some(false) };
    assert!(matches!(
        subtitles_stream(&r, stage, event),
        (SubtitleStage::Extraction, SubtitleAction::Extract { .. })
    ));
}

#[test]
fn failed_extractions_are_answered() {
    let r = request(2, "srt");
    match subtitles_stream(&r, SubtitleStage::Extraction, SubtitleEvent::Extraction(false)) {
        (SubtitleStage::Finished, SubtitleAction::Reply { head, .. }) => {
            assert_eq!(head.status, 500)
        }
        other => panic!("{:?}", other),
    }
    let read = SubtitleEvent::CachedText(Err("gone".to_string()));
    assert_eq!(
        failure(subtitles_stream(&r, SubtitleStage::CachedText, read)),
        "failed to read cached subtitle: gone"
    );
}

#[test]
fn other_events_change_nothing() {
    let r = request(2, "srt");
    let next = subtitles_stream(&r, SubtitleStage::Item, SubtitleEvent::BatchWaited);
    assert!(matches!(next, (SubtitleStage::Item, SubtitleAction::Ignore)));
    let next = subtitles_stream(&r, SubtitleStage::Finished, SubtitleEvent::Item(true));
    assert!(matches!(next, (SubtitleStage::Finished, SubtitleAction::Ignore)));
}

#[test]
fn indices_that_cannot_be_counted_are_told_apart() {
    let film = film();
    let mut full = media(2, MediaKind::Stream);
    full.probe_data = Some(probe(vec![stream(i64::MAX, None)]));
    let source = |m| SubtitleEvent::Source(Some(m));
    assert!(check_indices(&request(5, "vtt"), &source(&film)));
    assert!(check_indices(&request(i64::MIN + 4, "vtt"), &source(&film)));
    assert!(!check_indices(&request(i64::MIN + 3, "vtt"), &source(&film)));
    assert!(!check_indices(&request(0, "vtt"), &source(&full)));
    assert!(check_indices(&request(i64::MIN, "vtt"), &SubtitleEvent::Source(None)));
    assert!(check_indices(&request(i64::MIN, "vtt"), &SubtitleEvent::Stream(&full)));
}
