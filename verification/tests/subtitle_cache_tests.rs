use remux_server::ids::MediaId;
use remux_server::subtitle_cache::blank_bytes;
use remux_server::subtitle_cache::bytes_to_text;
use remux_server::subtitle_cache::cache_file_name;
use remux_server::subtitle_cache::cache_is_good;
use remux_server::subtitle_cache::extract_subtitle_to_cache;
use remux_server::subtitle_cache::pre_extract_all_subtitles_to_cache;
use remux_server::subtitle_cache::should_wait_for_batch;
use remux_server::subtitle_cache::CacheFile;
use remux_server::subtitle_cache::ExtractAction;
use remux_server::subtitle_cache::ExtractEvent;
use remux_server::subtitle_cache::ExtractJob;
use remux_server::subtitle_cache::RunOutcome;

fn job() -> ExtractJob {
    ExtractJob {
        input_url: "http://in".to_string(),
        map_spec: "0:s:1".to_string(),
        cache_path: Some("/c/x.srt".to_string()),
    }
}

fn failure(event: ExtractEvent) -> (String, bool) {
    match extract_subtitle_to_cache(&job(), event) {
        ExtractAction::Fail { message, remove } => (message, remove),
        other => panic!("{:?}", other),
    }
}

#[test]
fn cache_files_are_named_by_item_and_stream() {
    let item = MediaId { bits: 0xff };
    assert_eq!(cache_file_name(item, 3), "00000000-0000-0000-0000-0000000000ff_3.srt");
    assert_eq!(cache_file_name(item, -1), "00000000-0000-0000-0000-0000000000ff_-1.srt");
    assert_ne!(cache_file_name(item, 31), cache_file_name(MediaId { bits: 0xff3 }, 1));
}

#[test]
fn bytes_are_read_as_text() {
    assert_eq!(bytes_to_text(&"é😀".as_bytes().to_vec()), "é😀");
    assert_eq!(bytes_to_text(&vec![b'a', 0xff, b'b']), "a\u{fffd}b");
    assert_eq!(bytes_to_text(&Vec::new()), "");
}

#[test]
fn cache_files_must_hold_more_than_white_space() {
    assert!(cache_is_good(&Some(b"1\n00:00".to_vec())));
    assert!(!cache_is_good(&Some(b" \r\n\t".to_vec())));
    assert!(!cache_is_good(&Some("\u{a0}".as_bytes().to_vec())));
    assert!(!cache_is_good(&Some(Vec::new())));
    assert!(!cache_is_good(&None));
    assert!(cache_is_good(&Some(vec![0xff])));
}

#[test]
fn output_is_blank_where_it_is_ascii_white_space() {
    assert!(blank_bytes(&Vec::new()));
    assert!(blank_bytes(&b" \t\n\x0c\r".to_vec()));
    assert!(!blank_bytes(&b" \x0b".to_vec()));
    assert!(!blank_bytes(&"\u{a0}".as_bytes().to_vec()));
    // What is refused as output would be no cache hit either.
    assert!(!cache_is_good(&Some(b" \t\n\x0c\r".to_vec())));
}

#[test]
fn good_cache_files_are_kept() {
    let action = extract_subtitle_to_cache(&job(), ExtractEvent::Cache(Some(b"x".to_vec())));
    assert!(matches!(action, ExtractAction::Ready));
}

#[test]
fn missing_subtitles_are_extracted() {
    for content in [None, Some(b"\n".to_vec())] {
        match extract_subtitle_to_cache(&job(), ExtractEvent::Cache(content)) {
            ExtractAction::Run(args) => assert_eq!(
                args,
                vec![
                    "-y", "-nostdin", "-copyts", "-i", "http://in", "-map", "0:s:1", "-an",
                    "-vn", "-c:s", "srt", "-f", "srt", "/c/x.srt",
                ]
            ),
            other => panic!("{:?}", other),
        }
    }
}

#[test]
fn extractions_fail_with_their_reasons() {
    assert_eq!(
        failure(ExtractEvent::NoCacheDir("denied".to_string())),
        ("failed to create subtitle cache dir: denied".to_string(), false)
    );
    assert_eq!(
        failure(ExtractEvent::Ran(RunOutcome::TimedOut)),
        ("subtitle extraction timed out".to_string(), true)
    );
    assert_eq!(
        failure(ExtractEvent::Ran(RunOutcome::NotStarted("no file".to_string()))),
        ("failed to run ffmpeg: no file".to_string(), false)
    );
    assert_eq!(
        failure(ExtractEvent::Ran(RunOutcome::Exited {
            success: false,
            stderr: vec![b'b', b'a', b'd', 0xfe],
        })),
        ("ffmpeg subtitle extraction failed: bad\u{fffd}".to_string(), false)
    );
    assert_eq!(
        failure(ExtractEvent::Output(Err("gone".to_string()))),
        ("failed to read cached subtitle: gone".to_string(), false)
    );
    assert_eq!(
        failure(ExtractEvent::Output(Ok(b" \n".to_vec()))),
        ("subtitle extraction produced empty output".to_string(), true)
    );
}

#[test]
fn paths_must_be_unicode() {
    let mut no_path = job();
    no_path.cache_path = None;
    match extract_subtitle_to_cache(&no_path, ExtractEvent::Cache(None)) {
        ExtractAction::Fail { message, remove } => {
            assert_eq!(message, "invalid cache path");
            assert!(!remove);
        }
        other => panic!("{:?}", other),
    }
    let cached = extract_subtitle_to_cache(&no_path, ExtractEvent::Cache(Some(b"x".to_vec())));
    assert!(matches!(cached, ExtractAction::Ready));
}

#[test]
fn successful_runs_are_looked_at() {
    let ran = ExtractEvent::Ran(RunOutcome::Exited { success: true, stderr: Vec::new() });
    assert!(matches!(extract_subtitle_to_cache(&job(), ran), ExtractAction::ReadOutput));
    let output = ExtractEvent::Output(Ok(b"1\n".to_vec()));
    assert!(matches!(extract_subtitle_to_cache(&job(), output), ExtractAction::Ready));
}

#[test]
fn batches_extract_what_is_not_cached() {
    let files = vec![
        CacheFile { stream_index: 2, path: Some("/c/2".to_string()), content: None },
        CacheFile {
            stream_index: 3,
            path: Some("/c/3".to_string()),
            content: Some(b"text".to_vec()),
        },
        CacheFile { stream_index: 4, path: None, content: None },
        CacheFile {
            stream_index: 5,
            path: Some("/c/5".to_string()),
            content: Some(b" ".to_vec()),
        },
    ];
    let run = pre_extract_all_subtitles_to_cache("in", &files).unwrap();
    assert_eq!(run.indices, vec![2, 4, 5]);
    assert_eq!(
        run.args,
        vec![
            "-y", "-nostdin", "-probesize", "500000", "-analyzeduration", "0", "-i", "in",
            "-map", "0:2", "-an", "-vn", "-c:s", "srt", "-flush_packets", "1", "/c/2",
            "-map", "0:5", "-an", "-vn", "-c:s", "srt", "-flush_packets", "1", "/c/5",
        ]
    );
}

#[test]
fn nothing_is_extracted_where_all_is_cached() {
    let files = vec![CacheFile {
        stream_index: 3,
        path: Some("/c/3".to_string()),
        content: Some(b"text".to_vec()),
    }];
    assert!(pre_extract_all_subtitles_to_cache("in", &files).is_none());
    assert!(pre_extract_all_subtitles_to_cache("in", &Vec::new()).is_none());
}

#[test]
fn requests_wait_for_a_batch_under_way() {
    assert!(should_wait_for_batch(false, Some(false)));
    assert!(!should_wait_for_batch(false, Some(true)));
    assert!(!should_wait_for_batch(false, None));
    assert!(!should_wait_for_batch(true, Some(false)));
}
