use remux_server::ids::MediaId;
use remux_server::media::ExternalIds;
use remux_server::media::Media;
use remux_server::media::MediaKind;
use remux_server::media::StreamDescriptor;
use remux_server::media::StreamInfo;
use remux_server::stream_service::choose_source;
use remux_server::stream_service::find_stream;
use remux_server::stream_service::LoadAction;
use remux_server::stream_service::LoadEvent;
use remux_server::stream_service::LoadStage;
use remux_server::stream_service::LookupAction;
use remux_server::stream_service::LookupEvent;
use remux_server::stream_service::LookupRequest;
use remux_server::stream_service::LookupStage;
use remux_server::stream_service::StreamService;
use remux_server::stream_service::StreamServiceConfig;

const ITEM: MediaId = MediaId { bits: 1 };
const ITEM_TEXT: &str = "00000000-0000-0000-0000-000000000001";

fn media(id: u128, kind: MediaKind) -> Media {
    Media {
        id: MediaId { bits: id },
        kind,
        title: "title".to_string(),
        group_id: None,
        stream_info: None,
        probe_data: None,
        runtime: None,
        external_ids: ExternalIds {
            imdb: None,
            series_imdb: None,
            tmdb: None,
            tvdb: None,
            kitsu: None,
        },
        parent_idx: None,
        idx: None,
    }
}

fn info(url: &str) -> StreamInfo {
    StreamInfo {
        descriptor: StreamDescriptor::Http { url: url.to_string() },
        filename: None,
        size: None,
        resolution_tag: None,
        is_p2p: false,
        server_input: url.to_string(),
    }
}

fn id(bits: u128) -> MediaId {
    MediaId { bits }
}

fn config() -> StreamServiceConfig {
    StreamServiceConfig {
        item_id: ITEM,
        requested_id: None,
        show_ungrouped: true,
        has_filter_rules: false,
        prefer_lower_res_for_transcode: false,
    }
}

fn stream(bits: u128) -> Media {
    media(bits, MediaKind::Stream)
}

fn tagged(bits: u128, tag: &str) -> Media {
    let mut m = stream(bits);
    let mut i = info("u");
    i.resolution_tag = Some(tag.to_string());
    m.stream_info = Some(i);
    m
}

fn loaded(cfg: StreamServiceConfig, streams: Vec<Media>) -> StreamService {
    let mut service = StreamService::new(cfg);
    let (_, action) = service.load(LoadStage::Filtered, LoadEvent::Sources(streams));
    assert!(matches!(action, LoadAction::Loaded));
    service
}

fn grouped() -> StreamService {
    let mut service = StreamService::new(config());
    let mut group = media(50, MediaKind::StreamGroup);
    group.title = "Best".to_string();
    let (stage, action) = service.load(LoadStage::Start, LoadEvent::Media(group));
    assert!(matches!(action, LoadAction::FindGroupStreams { group: MediaId { bits: 50 } }));
    let (stage, action) =
        service.load(stage, LoadEvent::GroupStreams(vec![stream(10), stream(11)]));
    assert!(matches!(action, LoadAction::FindLaterStreams { group: MediaId { bits: 50 } }));
    let (_, action) = service.load(stage, LoadEvent::LaterStreams(vec![stream(12)]));
    assert!(matches!(action, LoadAction::Loaded));
    service
}

fn ids(list: &[&Media]) -> Vec<u128> {
    list.iter().map(|m| m.id.bits).collect()
}

#[test]
fn streams_are_found_by_id() {
    let list = vec![stream(5), stream(6), stream(6)];
    assert_eq!(find_stream(&list, id(6)), Some(1));
    assert_eq!(find_stream(&list, id(7)), None);
    assert_eq!(choose_source(&list, Some(id(6))), Some(1));
    assert_eq!(choose_source(&list, Some(id(7))), Some(0));
    assert_eq!(choose_source(&list, None), Some(0));
    assert_eq!(choose_source(&Vec::new(), Some(id(7))), None);
}

#[test]
fn services_start_empty() {
    let service = StreamService::new(config());
    assert!(service.group().is_none());
    assert!(service.streams.is_empty());
    assert!(!service.has_stream());
    assert_eq!(service.item_id, ITEM);
    assert_eq!(service.requested_id, None);
}

#[test]
fn groups_are_loaded_with_those_behind() {
    let service = grouped();
    let group = service.group().unwrap();
    assert_eq!(group.0, id(50));
    assert_eq!(group.1, "Best");
    assert_eq!(group.2.iter().map(|m| m.id.bits).collect::<Vec<_>>(), vec![10, 11, 12]);
    assert_eq!(service.candidate().id, id(10));
    assert_eq!(service.client_facing_id(), id(50));
    assert_eq!(service.source_id_for(&stream(99)), id(50));
    assert_eq!(service.source_name_for(&stream(99)), "Best");
}

#[test]
fn groups_without_streams_fail() {
    let mut service = StreamService::new(config());
    let stage = LoadStage::GroupStreams { group: id(50), title: String::new() };
    match service.load(stage, LoadEvent::GroupStreams(Vec::new())) {
        (LoadStage::Finished, LoadAction::Fail(text)) => assert_eq!(
            text,
            "no streams available for group 00000000-0000-0000-0000-000000000032"
        ),
        other => panic!("{:?}", other),
    }
}

#[test]
fn items_are_loaded_through_their_root() {
    let mut service = StreamService::new(config());
    let (stage, action) = service.load(LoadStage::Start, LoadEvent::Media(media(1, MediaKind::Movie)));
    assert!(matches!(action, LoadAction::FindRoot));
    let root = LoadEvent::Root { root: media(1, MediaKind::Movie), streams: vec![stream(3)] };
    let (stage, action) = service.load(stage, root);
    match action {
        LoadAction::GroupSources { sources, show_ungrouped } => {
            assert_eq!(sources[0].id, id(3));
            assert!(show_ungrouped);
        }
        other => panic!("{:?}", other),
    }
    let (_, action) = service.load(stage, LoadEvent::Sources(vec![stream(3), stream(4)]));
    assert!(matches!(action, LoadAction::Loaded));
    assert_eq!(service.candidate().id, id(3));
    assert_eq!(service.client_facing_id(), id(3));
    assert_eq!(service.source_id_for(&stream(4)), id(4));
    assert_eq!(service.source_name_for(&stream(4)), "title");
}

#[test]
fn roots_without_streams_stand_for_themselves() {
    let mut service = StreamService::new(config());
    let root = LoadEvent::Root { root: media(8, MediaKind::TvChannel), streams: Vec::new() };
    match service.load(LoadStage::Root, root).1 {
        LoadAction::GroupSources { sources, .. } => {
            assert_eq!(sources.len(), 1);
            assert_eq!(sources[0].id, id(8));
        }
        other => panic!("{:?}", other),
    }
}

#[test]
fn filters_are_applied_where_there_are_rules() {
    let mut cfg = config();
    cfg.has_filter_rules = true;
    let mut service = StreamService::new(cfg);
    let (stage, action) = service.load(LoadStage::Sources, LoadEvent::Sources(vec![stream(3)]));
    assert!(matches!(action, LoadAction::FilterSources { .. }));
    match service.load(stage, LoadEvent::Sources(Vec::new())) {
        (LoadStage::Finished, LoadAction::Fail(text)) => assert_eq!(
            text,
            format!(
                "no playable sources for {} (filtered out by grouping or stream policy)",
                ITEM_TEXT
            )
        ),
        other => panic!("{:?}", other),
    }
    assert!(service.streams.is_empty());
}

#[test]
fn other_load_events_change_nothing() {
    let mut service = grouped();
    let next = service.load(LoadStage::Start, LoadEvent::Sources(Vec::new()));
    assert!(matches!(next, (LoadStage::Start, LoadAction::Ignore)));
    assert_eq!(service.candidate().id, id(10));
}

#[test]
fn groups_offer_one_stream() {
    let service = grouped();
    let sel = service.select_streams();
    assert_eq!(ids(&sel.candidates), vec![10]);
    assert_eq!(ids(&sel.probe_pool), vec![10, 11, 12]);
    assert!(!sel.restrict_resolution);
    assert!(!sel.probe_only_first);
    assert!(sel.specific_requested);
}

#[test]
fn all_streams_are_offered_where_none_is_named() {
    let service = loaded(config(), vec![stream(3), stream(4)]);
    let sel = service.select_streams();
    assert_eq!(ids(&sel.candidates), vec![3, 4]);
    assert_eq!(ids(&sel.probe_pool), vec![3, 4]);
    assert!(sel.restrict_resolution);
    assert!(sel.probe_only_first);
    assert!(!sel.specific_requested);
}

#[test]
fn the_named_stream_is_offered() {
    let mut cfg = config();
    cfg.requested_id = Some(id(4));
    cfg.prefer_lower_res_for_transcode = true;
    let service = loaded(cfg, vec![stream(3), tagged(4, "4K"), stream(4)]);
    let sel = service.select_streams();
    assert_eq!(ids(&sel.candidates), vec![4, 4]);
    assert_eq!(ids(&sel.probe_pool), vec![3, 4, 4]);
    assert!(sel.candidates[0].stream_info.is_some());
    assert!(sel.specific_requested);
    assert!(!sel.probe_only_first);
}

#[test]
fn the_first_stream_is_offered_for_the_item() {
    for requested in [ITEM, id(99)] {
        let mut cfg = config();
        cfg.requested_id = Some(requested);
        let service = loaded(cfg, vec![stream(3), stream(4)]);
        let sel = service.select_streams();
        assert_eq!(ids(&sel.candidates), vec![3]);
        assert_eq!(ids(&sel.probe_pool), vec![3, 4]);
        assert!(!sel.specific_requested);
        assert!(!sel.probe_only_first);
    }
}

#[test]
fn an_item_among_its_own_streams_is_not_named() {
    let mut cfg = config();
    cfg.requested_id = Some(ITEM);
    let service = loaded(cfg, vec![stream(3), media(1, MediaKind::Movie)]);
    let sel = service.select_streams();
    assert_eq!(ids(&sel.candidates), vec![3]);
    assert!(!sel.specific_requested);
}

#[test]
fn lower_resolutions_come_first() {
    let mut cfg = config();
    cfg.prefer_lower_res_for_transcode = true;
    let streams =
        vec![tagged(3, "4K"), tagged(4, "1080p"), stream(5), tagged(6, "4K"), tagged(7, "4k")];
    let service = loaded(cfg, streams);
    assert_eq!(ids(&service.select_streams().candidates), vec![4, 5, 7, 3, 6]);
    assert_eq!(ids(&service.select_streams().probe_pool), vec![3, 4, 5, 6, 7]);
}

#[test]
fn preferences_are_kept_for_groups() {
    let kept = grouped().save_preference("tv").unwrap();
    assert_eq!(kept.key, format!("pstream:{}:tv", ITEM_TEXT));
    assert_eq!(kept.stream, id(10));
    assert_eq!(kept.seconds, 86_400);
    assert!(loaded(config(), vec![stream(3)]).save_preference("tv").is_none());
}

fn lookup(requested_id: Option<MediaId>, device: Option<&str>) -> LookupRequest {
    LookupRequest { item_id: ITEM, requested_id, device_key: device.map(|d| d.to_string()) }
}

fn found(next: (LookupStage, LookupAction)) -> MediaId {
    match next {
        (LookupStage::Finished, LookupAction::Found(m)) => m.id,
        other => panic!("{:?}", other),
    }
}

fn failure(next: (LookupStage, LookupAction)) -> String {
    match next {
        (LookupStage::Finished, LookupAction::Fail(text)) => text,
        other => panic!("{:?}", other),
    }
}

#[test]
fn lookups_start_from_what_is_named() {
    for (request, wanted) in [(lookup(None, None), ITEM), (lookup(Some(id(7)), None), id(7))] {
        match StreamService::lookup(&request, LookupStage::Start, LookupEvent::Begin) {
            (LookupStage::Media, LookupAction::FindMedia { id }) => assert_eq!(id, wanted),
            other => panic!("{:?}", other),
        }
    }
    let missing = StreamService::lookup(
        &lookup(Some(id(7)), None),
        LookupStage::Media,
        LookupEvent::Media(None),
    );
    assert_eq!(failure(missing), "stream not found: 00000000-0000-0000-0000-000000000007");
}

#[test]
fn lookups_go_by_the_kind() {
    let r = lookup(None, None);
    let go = |kind: MediaKind| {
        StreamService::lookup(&r, LookupStage::Media, LookupEvent::Media(Some(media(9, kind))))
    };
    assert_eq!(found(go(MediaKind::Stream)), id(9));
    assert_eq!(found(go(MediaKind::TvChannel)), id(9));
    assert!(matches!(
        go(MediaKind::StreamGroup).1,
        LookupAction::FindGroupStreams { group: MediaId { bits: 9 } }
    ));
    for kind in [MediaKind::Movie, MediaKind::Episode, MediaKind::Track] {
        assert!(matches!(go(kind).1, LookupAction::FindStreams { of: MediaId { bits: 9 } }));
    }
}

#[test]
fn lookups_of_groups_take_the_first_stream() {
    let r = lookup(None, None);
    let stage = || LookupStage::GroupStreams { group: id(9) };
    let streams = LookupEvent::Streams(vec![stream(4), stream(5)]);
    assert_eq!(found(StreamService::lookup(&r, stage(), streams)), id(4));
    assert_eq!(
        failure(StreamService::lookup(&r, stage(), LookupEvent::Streams(Vec::new()))),
        "no streams available for group 00000000-0000-0000-0000-000000000009"
    );
}

#[test]
fn named_streams_are_looked_up() {
    let r = lookup(Some(id(5)), Some("tv"));
    let streams = LookupEvent::Streams(vec![stream(4), stream(5)]);
    assert_eq!(found(StreamService::lookup(&r, LookupStage::Streams, streams)), id(5));
    let others = LookupEvent::Streams(vec![stream(4)]);
    assert_eq!(
        failure(StreamService::lookup(&r, LookupStage::Streams, others)),
        "stream not found: 00000000-0000-0000-0000-000000000005"
    );
}

#[test]
fn the_first_stream_is_looked_up() {
    let r = lookup(Some(ITEM), None);
    let streams = LookupEvent::Streams(vec![stream(4), stream(5)]);
    assert_eq!(found(StreamService::lookup(&r, LookupStage::Streams, streams)), id(4));
    assert_eq!(
        failure(StreamService::lookup(&r, LookupStage::Streams, LookupEvent::Streams(Vec::new()))),
        format!("no playable sources for {}", ITEM_TEXT)
    );
}

#[test]
fn kept_preferences_are_looked_up() {
    let kept = grouped().save_preference("tv").unwrap();
    let r = lookup(None, Some("tv"));
    for (saved, wanted) in [(Some(kept.stream), id(10)), (Some(id(77)), id(4)), (None, id(4))] {
        let streams = LookupEvent::Streams(vec![stream(4), stream(10)]);
        let (stage, action) = StreamService::lookup(&r, LookupStage::Streams, streams);
        match action {
            LookupAction::ReadPreference { key } => assert_eq!(key, kept.key),
            other => panic!("{:?}", other),
        }
        assert_eq!(
            found(StreamService::lookup(&r, stage, LookupEvent::Preference(saved))),
            wanted
        );
    }
    let none = LookupStage::Preference { streams: Vec::new() };
    assert_eq!(
        failure(StreamService::lookup(&r, none, LookupEvent::Preference(Some(id(10))))),
        format!("no playable sources for {}", ITEM_TEXT)
    );
}

#[test]
fn other_lookup_events_change_nothing() {
    let r = lookup(None, None);
    assert!(matches!(
        StreamService::lookup(&r, LookupStage::Start, LookupEvent::Media(None)),
        (LookupStage::Start, LookupAction::Ignore)
    ));
}

#[test]
fn the_stream_to_play_is_the_one_that_was_loaded() {
    let mut first = tagged(3, "4K");
    first.title = "first".to_string();
    let mut service = loaded(config(), vec![first, stream(4)]);
    assert!(service.has_stream());
    service.streams = vec![stream(9)];
    assert_eq!(service.candidate().id, id(3));
    assert_eq!(service.candidate().title, "first");
    assert_eq!(service.client_facing_id(), id(3));
    assert_eq!(
        service.candidate().stream_info.as_ref().unwrap().resolution_tag.as_deref(),
        Some("4K")
    );
    assert_eq!(ids(&service.select_streams().candidates), vec![9]);
    service.streams.clear();
    assert_eq!(service.candidate().id, id(3));
}

#[test]
fn later_groups_alone_leave_nothing_to_play() {
    let mut service = StreamService::new(config());
    let stage =
        LoadStage::LaterStreams { group: id(50), title: String::new(), candidates: Vec::new() };
    let (_, action) = service.load(stage, LoadEvent::LaterStreams(Vec::new()));
    assert!(matches!(action, LoadAction::Fail(_)));
    assert!(!service.has_stream());
}
