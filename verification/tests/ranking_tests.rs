use remux_server::ids::MediaId;
use remux_server::media::StreamDescriptor;
use remux_server::media::SubtitleInfo;
use remux_server::ranking::external_order;
use remux_server::ranking::score_sub_url;
use remux_server::ranking::scored_external_subtitles;
use remux_server::ranking::subtitle_path_hint;

fn sub(lang: Option<&str>, url: &str) -> SubtitleInfo {
    SubtitleInfo {
        lang: lang.map(|l| l.to_string()),
        url: Some(StreamDescriptor::Http { url: url.to_string() }),
    }
}

fn langs(list: &[&str]) -> Vec<String> {
    list.iter().map(|l| l.to_string()).collect()
}

#[test]
fn path_hints_come_from_the_address() {
    assert_eq!(subtitle_path_hint(&sub(None, "http://h/a.srt")), "http://h/a.srt");
    let local = SubtitleInfo {
        lang: None,
        url: Some(StreamDescriptor::Local(Some("/a/b.srt".to_string()))),
    };
    assert_eq!(subtitle_path_hint(&local), "/a/b.srt");
    let unreadable = SubtitleInfo { lang: None, url: Some(StreamDescriptor::Local(None)) };
    assert_eq!(subtitle_path_hint(&unreadable), "");
    let stored = SubtitleInfo {
        lang: None,
        url: Some(StreamDescriptor::Opendal {
            addon_id: MediaId { bits: 1 },
            path: "x/y.srt".to_string(),
        }),
    };
    assert_eq!(subtitle_path_hint(&stored), "x/y.srt");
    let torrent = SubtitleInfo {
        lang: None,
        url: Some(StreamDescriptor::Torrent { info_hash: "h".to_string(), file_idx: None }),
    };
    assert_eq!(subtitle_path_hint(&torrent), "");
    assert_eq!(subtitle_path_hint(&SubtitleInfo { lang: None, url: None }), "");
}

#[test]
fn shared_words_are_counted() {
    let s = sub(None, "http://host/great/The.Great.Film.2024.1080p.srt");
    let name = Some("The Great Film (2024)".to_string());
    let path = Some("/media/great.film.1080p.mkv".to_string());
    assert_eq!(score_sub_url(&s, &name, &path), 5);
    assert_eq!(score_sub_url(&s, &name, &None), 4);
    assert_eq!(score_sub_url(&s, &None, &None), 0);
    // Only the file name counts, not the directories before it.
    let dirs = sub(None, "/The/Great/Film/x.srt");
    assert_eq!(score_sub_url(&dirs, &name, &path), 0);
}

#[test]
fn wanted_languages_come_in_their_order() {
    let subs = vec![
        sub(Some("eng"), "a.srt"),
        sub(Some("fre"), "b.srt"),
        sub(Some("de"), "c.srt"),
        sub(None, "d.srt"),
    ];
    assert_eq!(external_order(&subs, &langs(&["de", " EN "]), &None, &None), vec![2, 0]);
}

#[test]
fn all_languages_are_taken_without_preferences() {
    let subs = vec![sub(Some("eng"), "a.srt"), sub(None, "b.srt"), sub(Some("zzz"), "c.srt")];
    assert_eq!(external_order(&subs, &Vec::new(), &None, &None), vec![0, 1, 2]);
}

#[test]
fn better_matches_come_first_and_ties_keep_their_order() {
    let subs = vec![
        sub(Some("en"), "other.srt"),
        sub(Some("en"), "film.one.srt"),
        sub(Some("en"), "film.two.srt"),
    ];
    let name = Some("film".to_string());
    assert_eq!(external_order(&subs, &langs(&["en"]), &name, &None), vec![1, 2]);
}

#[test]
fn two_subtitles_of_each_language_are_kept() {
    let subs = vec![
        sub(Some("eng"), "a.srt"),
        sub(Some("en"), "b.srt"),
        sub(Some("eng"), "c.srt"),
        sub(Some("eng"), "d.srt"),
        sub(None, "e.srt"),
        sub(Some("und"), "f.srt"),
        sub(None, "g.srt"),
    ];
    // The languages are told apart as they are written; no language counts as `und`.
    assert_eq!(external_order(&subs, &Vec::new(), &None, &None), vec![0, 1, 2, 4, 5]);
}

#[test]
fn the_subtitles_themselves_come_out() {
    let subs = vec![sub(Some("fr"), "a.srt"), sub(Some("en"), "b.srt")];
    let scored = scored_external_subtitles(&subs, &langs(&["en"]), &None, &None);
    assert_eq!(scored.len(), 1);
    assert_eq!(subtitle_path_hint(scored[0]), "b.srt");
}

#[test]
fn ranking_again_changes_nothing() {
    let subs = vec![
        sub(Some("fr"), "a.srt"),
        sub(Some("en"), "other.srt"),
        sub(Some("en"), "film.srt"),
        sub(Some("en"), "film.again.srt"),
        sub(Some("eng"), "x.srt"),
        sub(Some("de"), "y.srt"),
    ];
    let wanted = langs(&["en", "fr"]);
    let name = Some("film".to_string());
    assert_eq!(external_order(&subs, &wanted, &name, &None), vec![2, 3, 4, 0]);
    let again: Vec<SubtitleInfo> = scored_external_subtitles(&subs, &wanted, &name, &None)
        .into_iter()
        .cloned()
        .collect();
    assert_eq!(external_order(&again, &wanted, &name, &None), vec![0, 1, 2, 3]);
}
