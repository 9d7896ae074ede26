use remux_server::playlist::join_lines;
use remux_server::playlist::lines_of;
use remux_server::playlist::playlist_has_segment;
use remux_server::playlist::replace_all;
use remux_server::playlist::rewrite_playlist;

const GROWING: &str = "#EXTM3U\r\n#EXT-X-PLAYLIST-TYPE:EVENT\n#EXT-X-MAP:URI=\"init.mp4\"\n#EXTINF:6.0,\nsegment_00000.m4s\n";

#[test]
fn growing_playlists_name_the_session() {
    assert_eq!(
        rewrite_playlist(false, GROWING, "abc"),
        "#EXTM3U\n#EXT-X-PLAYLIST-TYPE:EVENT\n#EXT-X-MAP:URI=\"init.mp4?PlaySessionId=abc\"\n#EXTINF:6.0,\nsegment_00000.m4s?PlaySessionId=abc"
    );
}

#[test]
fn complete_playlists_become_recordings() {
    let complete = "#EXTM3U\n#EXT-X-PLAYLIST-TYPE:EVENT\n#EXTINF:6.0,\ns_0.ts\n#EXT-X-ENDLIST\n";
    assert_eq!(
        rewrite_playlist(false, complete, "p"),
        "#EXTM3U\n#EXT-X-PLAYLIST-TYPE:VOD\n#EXTINF:6.0,\ns_0.ts?PlaySessionId=p\n#EXT-X-ENDLIST"
    );
}

#[test]
fn live_playlists_stay_events() {
    let complete = "#EXT-X-PLAYLIST-TYPE:EVENT\n#EXT-X-ENDLIST";
    assert_eq!(rewrite_playlist(true, complete, "p"), complete);
}

#[test]
fn comments_that_look_like_segments_stay() {
    assert_eq!(rewrite_playlist(false, "#s_0.ts\nother.txt\n", "p"), "#s_0.ts\nother.txt");
}

#[test]
fn map_lines_with_a_session_stay() {
    let line = "#EXT-X-MAP:URI=\"init.mp4?PlaySessionId=old\"";
    assert_eq!(rewrite_playlist(false, line, "new"), line);
}

#[test]
fn rewriting_a_playlist_twice_changes_nothing() {
    let once = rewrite_playlist(false, GROWING, "abc");
    assert_eq!(rewrite_playlist(false, &once, "abc"), once);
}

#[test]
fn empty_playlists_stay_empty() {
    assert_eq!(rewrite_playlist(false, "", "p"), "");
    assert_eq!(rewrite_playlist(true, "", "p"), "");
}

#[test]
fn playlists_with_a_segment_are_told_apart() {
    assert!(playlist_has_segment(GROWING));
    assert!(!playlist_has_segment("#EXTM3U\n"));
}

#[test]
fn texts_are_cut_into_lines() {
    assert_eq!(lines_of("a\r\nb\n\nc"), vec!["a", "b", "", "c"]);
    assert_eq!(lines_of("a\n"), vec!["a"]);
    assert_eq!(lines_of("a\rb\r"), vec!["a\rb\r"]);
    assert_eq!(lines_of("\r\n"), vec![""]);
    assert!(lines_of("").is_empty());
}

#[test]
fn lines_are_joined() {
    let parts: Vec<String> = vec!["a".to_string(), String::new(), "b".to_string()];
    assert_eq!(join_lines(&parts), "a\n\nb");
    assert_eq!(lines_of(&join_lines(&parts)), parts);
    assert_eq!(join_lines(&Vec::new()), "");
}

#[test]
fn parts_are_replaced_from_the_left() {
    assert_eq!(replace_all("aaa", "aa", "b"), "ba");
    assert_eq!(replace_all("xyx", "x", ""), "y");
    assert_eq!(replace_all("xyx", "z", "w"), "xyx");
}
