//! Variant playlists: the text that the transcoder writes, made ready for a client.

use vstd::prelude::*;

use crate::text::chars_of;
use crate::text::contains;
use crate::text::ends_with;
use crate::text::has_part;
use crate::text::begins_with;
use crate::text::finishes_with;
use crate::text::occurs_at;
use crate::text::part_of;
use crate::text::same_text;
use crate::text::stands_at;
use crate::text::starts_with;
use crate::text::string_of;
use crate::text::texts;

verus! {

// ---------------------------------------------------------------------------
// Lines
// ---------------------------------------------------------------------------

/// The first position of `c` in `s`.
pub open spec fn first_position(s: Seq<char>, c: char) -> Option<int>
    decreases s.len(),
{
    if s.len() == 0 {
        None
    } else if s[0] == c {
        Some(0int)
    } else {
        match first_position(s.skip(1), c) {
            Some(i) => Some(i + 1),
            None => None,
        }
    }
}

/// A line that a line feed ended, without the carriage return before that feed.
pub open spec fn without_return(s: Seq<char>) -> Seq<char> {
    if s.len() > 0 && s.last() == '\r' {
        s.drop_last()
    } else {
        s
    }
}

/// The lines of a text. A line feed, or a carriage return and a line feed, ends
/// a line; what follows the last one is a line unless it is empty.
pub open spec fn lines(s: Seq<char>) -> Seq<Seq<char>>
    decreases s.len(),
{
    if s.len() == 0 {
        Seq::empty()
    } else {
        match first_position(s, '\n') {
            Some(n) => if 0 <= n < s.len() {
                seq![without_return(s.take(n))] + lines(s.skip(n + 1))
            } else {
                Seq::empty()
            },
            None => seq![s],
        }
    }
}

/// Texts put one behind the other with a line feed between each two.
pub open spec fn joined(parts: Seq<Seq<char>>) -> Seq<char>
    decreases parts.len(),
{
    if parts.len() == 0 {
        Seq::empty()
    } else if parts.len() == 1 {
        parts[0]
    } else {
        joined(parts.drop_last()) + seq!['\n'] + parts.last()
    }
}

proof fn lemma_first_position(s: Seq<char>, c: char, n: int)
    requires
        0 <= n < s.len(),
        s[n] == c,
        forall|k: int| 0 <= k < n ==> s[k] != c,
    ensures
        first_position(s, c) == Some(n),
    decreases s.len(),
{
    if n > 0 {
        let r = s.skip(1);
        assert(r[n - 1] == c);
        assert forall|k: int| 0 <= k < n - 1 implies r[k] != c by {
            assert(r[k] == s[k + 1]);
        }
        lemma_first_position(r, c, n - 1);
    }
}

proof fn lemma_no_position(s: Seq<char>, c: char)
    requires
        forall|k: int| 0 <= k < s.len() ==> s[k] != c,
    ensures
        first_position(s, c) is None,
    decreases s.len(),
{
    if s.len() > 0 {
        let r = s.skip(1);
        assert forall|k: int| 0 <= k < r.len() implies r[k] != c by {
            assert(r[k] == s[k + 1]);
        }
        lemma_no_position(r, c);
    }
}

/// Cuts a text into its lines.
pub fn lines_of(s: &str) -> (r: Vec<String>)
    ensures
        texts(r@) == lines(s@),
{
    let v: Vec<char> = chars_of(s);
    let mut out: Vec<String> = Vec::new();
    let mut start: usize = 0;
    let mut i: usize = 0;
    assert(s@.skip(0) =~= s@);
    assert(texts(out@) + lines(s@.skip(0)) =~= lines(s@));
    while i < v.len()
        invariant
            start <= i <= v.len(),
            v@ == s@,
            texts(out@) + lines(s@.skip(start as int)) == lines(s@),
            forall|k: int| start <= k < i ==> v@[k] != '\n',
        decreases v.len() - i,
    {
        if v[i] == '\n' {
            let end: usize = if i > start && v[i - 1] == '\r' {
                i - 1
            } else {
                i
            };
            let part: Vec<char> = part_of(&v, start, end);
            let line: String = string_of(&part);
            proof {
                let r = s@.skip(start as int);
                lemma_first_position(r, '\n', i - start);
                assert(r.skip(i - start + 1) =~= s@.skip(i + 1));
                if i > start {
                    assert(r.take(i - start).last() == v@[i - 1]);
                }
                assert(line@ =~= without_return(r.take(i - start)));
                assert(texts(out@.push(line)) =~= texts(out@) + seq![line@]);
                assert(lines(r) =~= seq![line@] + lines(s@.skip(i + 1)));
                assert(texts(out@) + (seq![line@] + lines(s@.skip(i + 1))) =~= texts(out@) + seq![
                    line@,
                ] + lines(s@.skip(i + 1)));
            }
            out.push(line);
            start = i + 1;
        }
        i += 1;
    }
    if start < v.len() {
        let part: Vec<char> = part_of(&v, start, v.len());
        let line: String = string_of(&part);
        proof {
            let r = s@.skip(start as int);
            assert forall|k: int| 0 <= k < r.len() implies r[k] != '\n' by {
                assert(r[k] == v@[k + start]);
            }
            lemma_no_position(r, '\n');
            assert(line@ =~= r);
            assert(texts(out@.push(line)) =~= texts(out@) + seq![line@]);
        }
        out.push(line);
    } else {
        assert(s@.skip(start as int) =~= Seq::<char>::empty());
        assert(texts(out@) + lines(s@.skip(start as int)) =~= texts(out@));
    }
    out
}

/// Joins texts with line feeds.
pub fn join_lines(parts: &Vec<String>) -> (r: String)
    ensures
        r@ == joined(texts(parts@)),
{
    let mut r: String = String::new();
    let mut i: usize = 0;
    let ghost all = texts(parts@);
    assert(all.take(0) =~= Seq::<Seq<char>>::empty());
    while i < parts.len()
        invariant
            i <= parts.len(),
            all == texts(parts@),
            r@ == joined(all.take(i as int)),
        decreases parts.len() - i,
    {
        proof {
            assert(all.take(i + 1).drop_last() =~= all.take(i as int));
            assert(all.take(i + 1).last() == parts@[i as int]@);
        }
        if i > 0 {
            r.push('\n');
            r.append(parts[i].as_str());
            assert(r@ =~= joined(all.take(i as int)) + seq!['\n'] + parts@[i as int]@);
        } else {
            r.append(parts[i].as_str());
            assert(r@ =~= parts@[i as int]@);
        }
        i += 1;
    }
    assert(all.take(i as int) =~= all);
    r
}

// ---------------------------------------------------------------------------
// Replacing
// ---------------------------------------------------------------------------

/// `s` with each `from` replaced by `to`, from left to right without overlap.
pub open spec fn replaced(s: Seq<char>, from: Seq<char>, to: Seq<char>) -> Seq<char>
    recommends
        from.len() > 0,
    decreases s.len(),
{
    if s.len() == 0 || from.len() == 0 {
        s
    } else if begins_with(s, from) {
        to + replaced(s.skip(from.len() as int), from, to)
    } else {
        seq![s[0]] + replaced(s.skip(1), from, to)
    }
}

/// Replaces each `from` in `s` by `to`.
pub fn replace_all(s: &str, from: &str, to: &str) -> (r: String)
    requires
        from@.len() > 0,
    ensures
        r@ == replaced(s@, from@, to@),
{
    let sv: Vec<char> = chars_of(s);
    let fv: Vec<char> = chars_of(from);
    let mut r: String = String::new();
    let mut i: usize = 0;
    assert(s@.skip(0) =~= s@);
    assert(r@ + replaced(s@, from@, to@) =~= replaced(s@, from@, to@));
    while i < sv.len()
        invariant
            i <= sv.len(),
            sv@ == s@,
            fv@ == from@,
            fv@.len() > 0,
            r@ + replaced(s@.skip(i as int), from@, to@) == replaced(s@, from@, to@),
        decreases sv.len() - i,
    {
        let ghost rest = s@.skip(i as int);
        let ghost done = r@;
        if stands_at(&sv, &fv, i) {
            proof {
                assert(rest.subrange(0, fv@.len() as int) =~= s@.subrange(i as int, i + fv@.len()));
                assert(begins_with(rest, from@));
                assert(rest.skip(fv@.len() as int) =~= s@.skip(i + fv@.len()));
            }
            r.append(to);
            i += fv.len();
            assert(done + to@ + replaced(s@.skip(i as int), from@, to@) =~= done + (to@ + replaced(
                s@.skip(i as int),
                from@,
                to@,
            )));
        } else {
            proof {
                if begins_with(rest, from@) {
                    assert(rest.subrange(0, fv@.len() as int) =~= s@.subrange(
                        i as int,
                        i + fv@.len(),
                    ));
                }
                assert(rest.skip(1) =~= s@.skip(i + 1));
                assert(rest[0] == sv@[i as int]);
            }
            r.push(sv[i]);
            i += 1;
            assert(r@ + replaced(s@.skip(i as int), from@, to@) =~= done + (seq![rest[0]]
                + replaced(s@.skip(i as int), from@, to@)));
        }
    }
    assert(s@.skip(i as int) =~= Seq::<char>::empty());
    assert(r@ + replaced(s@.skip(i as int), from@, to@) =~= r@);
    r
}

// ---------------------------------------------------------------------------
// Playlists
// ---------------------------------------------------------------------------

/// A line that names a media segment.
pub open spec fn is_segment_line(line: Seq<char>) -> bool {
    &&& !begins_with(line, "#"@)
    &&& finishes_with(line, ".ts"@) || finishes_with(line, ".m4s"@)
}

/// A line that names the initialisation segment of fragmented MP4 and does not
/// name a play session yet.
pub open spec fn is_untagged_map_line(line: Seq<char>) -> bool {
    &&& begins_with(line, "#EXT-X-MAP:"@)
    &&& !has_part(line, "PlaySessionId"@)
}

/// The initialisation segment as the transcoder names it.
pub open spec fn plain_init() -> Seq<char> {
    "\"init.mp4\""@
}

/// The initialisation segment with its play session.
pub open spec fn tagged_init(psid: Seq<char>) -> Seq<char> {
    "\"init.mp4?PlaySessionId="@ + psid + "\""@
}

/// A playlist line as the client gets it: segments and the initialisation
/// segment name the play session, and a complete playlist is a recording (VOD)
/// where the transcoder wrote that it is still growing (EVENT).
pub open spec fn client_line(line: Seq<char>, psid: Seq<char>, complete: bool) -> Seq<char> {
    if is_segment_line(line) {
        line + "?PlaySessionId="@ + psid
    } else if is_untagged_map_line(line) {
        replaced(line, plain_init(), tagged_init(psid))
    } else if complete && line == "#EXT-X-PLAYLIST-TYPE:EVENT"@ {
        "#EXT-X-PLAYLIST-TYPE:VOD"@
    } else {
        line
    }
}

/// A playlist as the client gets it, line by line.
pub open spec fn client_lines(content: Seq<char>, psid: Seq<char>, complete: bool) -> Seq<
    Seq<char>,
> {
    lines(content).map_values(|line: Seq<char>| client_line(line, psid, complete))
}

/// The transcoder has closed the playlist of something that is not live.
pub open spec fn is_complete(is_live: bool, content: Seq<char>) -> bool {
    !is_live && has_part(content, "#EXT-X-ENDLIST"@)
}

/// A playlist as the client gets it.
pub open spec fn client_playlist(is_live: bool, content: Seq<char>, psid: Seq<char>) -> Seq<char> {
    joined(client_lines(content, psid, is_complete(is_live, content)))
}

fn rewrite_line(line: &str, psid: &str, complete: bool) -> (r: String)
    ensures
        r@ == client_line(line@, psid@, complete),
{
    if !starts_with(line, "#") && (ends_with(line, ".ts") || ends_with(line, ".m4s")) {
        let mut r: String = line.to_owned();
        r.append("?PlaySessionId=");
        r.append(psid);
        r
    } else if starts_with(line, "#EXT-X-MAP:") && !contains(line, "PlaySessionId") {
        let mut to: String = "\"init.mp4?PlaySessionId=".to_owned();
        to.append(psid);
        to.append("\"");
        proof {
            reveal_strlit("\"init.mp4\"");
        }
        replace_all(line, "\"init.mp4\"", to.as_str())
    } else if complete && same_text(line, "#EXT-X-PLAYLIST-TYPE:EVENT") {
        "#EXT-X-PLAYLIST-TYPE:VOD".to_owned()
    } else {
        line.to_owned()
    }
}

/// Makes the transcoder's playlist ready for the client.
pub fn rewrite_playlist(is_live: bool, content: &str, psid: &str) -> (r: String)
    ensures
        r@ == client_playlist(is_live, content@, psid@),
{
    let complete: bool = !is_live && contains(content, "#EXT-X-ENDLIST");
    let ls: Vec<String> = lines_of(content);
    let mut out: Vec<String> = Vec::new();
    let mut i: usize = 0;
    while i < ls.len()
        invariant
            i <= ls.len(),
            texts(ls@) == lines(content@),
            complete == is_complete(is_live, content@),
            texts(out@) =~= client_lines(content@, psid@, complete).take(i as int),
        decreases ls.len() - i,
    {
        let ghost before = out@;
        let line: String = rewrite_line(ls[i].as_str(), psid, complete);
        out.push(line);
        i += 1;
        proof {
            let all = client_lines(content@, psid@, complete);
            assert(texts(ls@).len() == ls@.len());
            assert(texts(ls@)[i - 1] == ls@[i - 1]@);
            assert(texts(out@) =~= texts(before).push(line@));
            assert(all.take(i as int) =~= all.take(i - 1).push(all[i - 1]));
        }
    }
    assert(texts(ls@).len() == ls@.len());
    assert(client_lines(content@, psid@, complete).take(i as int) =~= client_lines(
        content@,
        psid@,
        complete,
    ));
    join_lines(&out)
}

/// Whether the transcoder has written its first segment into the playlist.
pub fn playlist_has_segment(content: &str) -> (r: bool)
    ensures
        r == has_part(content@, "#EXTINF"@),
{
    contains(content, "#EXTINF")
}

// ---------------------------------------------------------------------------
// Laws
// ---------------------------------------------------------------------------

/// A text that does not hold what is to be replaced stays as it is.
proof fn lemma_nothing_replaced(s: Seq<char>, from: Seq<char>, to: Seq<char>)
    requires
        !has_part(s, from),
    ensures
        replaced(s, from, to) == s,
    decreases s.len(),
{
    if s.len() > 0 && from.len() > 0 {
        let r = s.skip(1);
        assert(!occurs_at(s, from, 0));
        assert forall|i: int| !occurs_at(r, from, i) by {
            if occurs_at(r, from, i) {
                assert(s.subrange(i + 1, i + 1 + from.len()) =~= r.subrange(i, i + from.len()));
                assert(occurs_at(s, from, i + 1));
            }
        }
        lemma_nothing_replaced(r, from, to);
        assert(seq![s[0]] + r =~= s);
    }
}

/// Where something is replaced, the replacement stands in the result.
proof fn lemma_replacement_stands(s: Seq<char>, from: Seq<char>, to: Seq<char>, i: int)
    requires
        from.len() > 0,
        occurs_at(s, from, i),
    ensures
        has_part(replaced(s, from, to), to),
    decreases s.len(),
{
    let whole = replaced(s, from, to);
    if begins_with(s, from) {
        assert(whole.subrange(0, to.len() as int) =~= to);
        assert(occurs_at(whole, to, 0));
    } else {
        let r = s.skip(1);
        assert(i > 0);
        assert(r.subrange(i - 1, i - 1 + from.len()) =~= s.subrange(i, i + from.len()));
        lemma_replacement_stands(r, from, to, i - 1);
        let rest = replaced(r, from, to);
        let k = choose|k: int| occurs_at(rest, to, k);
        assert(whole.subrange(k + 1, k + 1 + to.len()) =~= rest.subrange(k, k + to.len()));
        assert(occurs_at(whole, to, k + 1));
    }
}

/// A beginning that holds no first character of what is replaced stays.
proof fn lemma_beginning_stays(s: Seq<char>, from: Seq<char>, to: Seq<char>, n: int)
    requires
        from.len() > 0,
        0 <= n <= s.len(),
        forall|k: int| 0 <= k < n ==> s[k] != from[0],
    ensures
        replaced(s, from, to).len() >= n,
        replaced(s, from, to).take(n) == s.take(n),
    decreases s.len(),
{
    if n > 0 {
        let r = s.skip(1);
        if begins_with(s, from) {
            assert(s.subrange(0, from.len() as int)[0] == s[0]);
        }
        assert forall|k: int| 0 <= k < n - 1 implies r[k] != from[0] by {
            assert(r[k] == s[k + 1]);
        }
        lemma_beginning_stays(r, from, to, n - 1);
        let rest = replaced(r, from, to);
        let whole = replaced(s, from, to);
        assert forall|k: int| 0 <= k < n implies whole[k] == s[k] by {
            if k > 0 {
                assert(whole[k] == rest[k - 1]);
                assert(rest.take(n - 1)[k - 1] == r.take(n - 1)[k - 1]);
            }
        }
        assert(whole.take(n) =~= s.take(n));
    } else {
        assert(replaced(s, from, to).take(0) =~= s.take(0));
    }
}

/// What holds a text holds each part of that text.
proof fn lemma_part_of_part(s: Seq<char>, p: Seq<char>, q: Seq<char>)
    requires
        has_part(s, p),
        has_part(p, q),
    ensures
        has_part(s, q),
{
    let i = choose|i: int| occurs_at(s, p, i);
    let j = choose|j: int| occurs_at(p, q, j);
    let a = s.subrange(i + j, i + j + q.len());
    let b = p.subrange(j, j + q.len());
    assert forall|k: int| 0 <= k < q.len() implies a[k] == b[k] by {
        assert(s.subrange(i, i + p.len())[j + k] == p[j + k]);
    }
    assert(a =~= b);
    assert(occurs_at(s, q, i + j));
}

/// A segment line of the client's playlist is the transcoder's line followed by
/// the play session.
pub proof fn segment_lines_name_the_session(line: Seq<char>, psid: Seq<char>, complete: bool)
    requires
        is_segment_line(line),
    ensures
        begins_with(client_line(line, psid, complete), line),
        finishes_with(client_line(line, psid, complete), "?PlaySessionId="@ + psid),
{
    let r = client_line(line, psid, complete);
    let tail = "?PlaySessionId="@ + psid;
    assert(r.subrange(0, line.len() as int) =~= line);
    assert(r.subrange(r.len() - tail.len(), r.len() as int) =~= tail);
}

/// The initialisation segment of the client's playlist names the play session
/// wherever the transcoder named that segment.
pub proof fn map_lines_name_the_session(line: Seq<char>, psid: Seq<char>, complete: bool)
    requires
        is_untagged_map_line(line),
        has_part(line, plain_init()),
    ensures
        has_part(client_line(line, psid, complete), tagged_init(psid)),
{
    reveal_strlit("\"init.mp4\"");
    reveal_strlit("#EXT-X-MAP:");
    reveal_strlit("#");
    lemma_map_line_is_no_segment(line);
    let i = choose|i: int| occurs_at(line, plain_init(), i);
    lemma_replacement_stands(line, plain_init(), tagged_init(psid), i);
}

proof fn lemma_map_line_is_no_segment(line: Seq<char>)
    requires
        begins_with(line, "#EXT-X-MAP:"@),
    ensures
        begins_with(line, "#"@),
        line.len() >= 11,
        line[0] == '#',
        line[7] == 'M',
        forall|k: int| 0 <= k < 11 ==> line[k] != '"',
{
    reveal_strlit("#EXT-X-MAP:");
    reveal_strlit("#");
    let p = "#EXT-X-MAP:"@;
    assert forall|k: int| 0 <= k < 11 implies line[k] == p[k] by {
        assert(line.subrange(0, 11)[k] == p[k]);
    }
    assert(line.subrange(0, 1) =~= "#"@);
}

/// A playlist that is still growing, or live, keeps every line but those that
/// name segments.
pub proof fn growing_playlists_keep_other_lines(line: Seq<char>, psid: Seq<char>)
    requires
        !is_segment_line(line),
        !is_untagged_map_line(line),
    ensures
        client_line(line, psid, false) == line,
{
}

/// Rewriting a line that was already rewritten for the same play session changes
/// nothing, unless the name of the session itself ends like a segment's.
pub proof fn rewriting_twice_changes_nothing(line: Seq<char>, psid: Seq<char>, complete: bool)
    requires
        !finishes_with(psid, ".ts"@),
        !finishes_with(psid, ".m4s"@),
    ensures
        client_line(client_line(line, psid, complete), psid, complete) == client_line(
            line,
            psid,
            complete,
        ),
{
    reveal_strlit("#");
    reveal_strlit(".ts");
    reveal_strlit(".m4s");
    reveal_strlit("?PlaySessionId=");
    reveal_strlit("#EXT-X-MAP:");
    reveal_strlit("#EXT-X-PLAYLIST-TYPE:EVENT");
    reveal_strlit("#EXT-X-PLAYLIST-TYPE:VOD");
    reveal_strlit("\"init.mp4\"");
    let r = client_line(line, psid, complete);
    if is_segment_line(line) {
        lemma_tagged_line_is_no_segment(line, psid);
        assert(line.len() > 0);
        if line[0] == '#' {
            assert(line.subrange(0, 1) =~= "#"@);
        }
        assert(r[0] == line[0]);
        if begins_with(r, "#EXT-X-MAP:"@) {
            assert(r.subrange(0, 11)[0] == r[0]);
        }
        assert("#EXT-X-PLAYLIST-TYPE:EVENT"@[0] == '#');
    } else if is_untagged_map_line(line) {
        lemma_map_line_is_no_segment(line);
        if has_part(line, plain_init()) {
            let i = choose|i: int| occurs_at(line, plain_init(), i);
            lemma_replacement_stands(line, plain_init(), tagged_init(psid), i);
            lemma_tag_names_the_session(psid);
            lemma_part_of_part(r, tagged_init(psid), "PlaySessionId"@);
            lemma_beginning_stays(line, plain_init(), tagged_init(psid), 11);
            assert(r.take(11)[0] == line.take(11)[0]);
            assert(r.take(11)[7] == line.take(11)[7]);
            assert(r.subrange(0, 1) =~= "#"@);
            assert("#EXT-X-PLAYLIST-TYPE:EVENT"@[7] == 'P');
        } else {
            lemma_nothing_replaced(line, plain_init(), tagged_init(psid));
        }
    } else if complete && line == "#EXT-X-PLAYLIST-TYPE:EVENT"@ {
        assert(r.subrange(0, 1) =~= "#"@);
        assert(r[7] == 'P');
        if begins_with(r, "#EXT-X-MAP:"@) {
            assert(r.subrange(0, 11)[7] == 'M');
        }
        assert(r.len() != line.len());
    }
}

proof fn lemma_tagged_line_is_no_segment(line: Seq<char>, psid: Seq<char>)
    requires
        !finishes_with(psid, ".ts"@),
        !finishes_with(psid, ".m4s"@),
    ensures
        !is_segment_line(line + "?PlaySessionId="@ + psid),
{
    reveal_strlit(".ts");
    reveal_strlit(".m4s");
    reveal_strlit("?PlaySessionId=");
    let r = line + "?PlaySessionId="@ + psid;
    let n = r.len() as int;
    let e = n - psid.len() - 1;
    assert(r[e] == '=');
    if finishes_with(r, ".ts"@) {
        let t = r.subrange(n - 3, n);
        assert(t == ".ts"@);
        if psid.len() >= 3 {
            assert(psid.subrange(psid.len() - 3, psid.len() as int) =~= t);
        } else {
            assert(t[e - (n - 3)] == '=');
        }
    }
    if finishes_with(r, ".m4s"@) {
        let t = r.subrange(n - 4, n);
        assert(t == ".m4s"@);
        if psid.len() >= 4 {
            assert(psid.subrange(psid.len() - 4, psid.len() as int) =~= t);
        } else {
            assert(t[e - (n - 4)] == '=');
        }
    }
}

proof fn lemma_tag_names_the_session(psid: Seq<char>)
    ensures
        has_part(tagged_init(psid), "PlaySessionId"@),
{
    reveal_strlit("\"init.mp4?PlaySessionId=");
    reveal_strlit("PlaySessionId");
    let t = tagged_init(psid);
    assert(t.subrange(10, 23) =~= "PlaySessionId"@);
    assert(occurs_at(t, "PlaySessionId"@, 10));
}

/// `s` does not hold `c`.
pub open spec fn free_of(s: Seq<char>, c: char) -> bool {
    forall|i: int| 0 <= i < s.len() ==> s[i] != c
}

/// Texts that one line each can hold: no line feed, no carriage return.
pub open spec fn fits_a_line(s: Seq<char>) -> bool {
    free_of(s, '\n') && free_of(s, '\r')
}

proof fn lemma_joined_front(parts: Seq<Seq<char>>)
    requires
        parts.len() >= 2,
    ensures
        joined(parts) == parts[0] + seq!['\n'] + joined(parts.skip(1)),
    decreases parts.len(),
{
    let rest = parts.skip(1);
    if parts.len() == 2 {
        reveal_with_fuel(joined, 2);
        assert(parts.drop_last() =~= seq![parts[0]]);
        assert(rest =~= seq![parts[1]]);
    } else {
        let init = parts.drop_last();
        lemma_joined_front(init);
        assert(init.skip(1) =~= rest.drop_last());
        assert(rest.last() == parts.last());
        assert(joined(parts) =~= parts[0] + seq!['\n'] + joined(rest));
    }
}

/// Texts that fit a line, joined by line feeds, are read back line by line.
pub proof fn joined_lines_read_back(parts: Seq<Seq<char>>)
    requires
        forall|i: int| 0 <= i < parts.len() ==> fits_a_line(#[trigger] parts[i]),
        parts.len() > 0 ==> parts.last().len() > 0,
    ensures
        lines(joined(parts)) == parts,
    decreases parts.len(),
{
    let s = joined(parts);
    if parts.len() == 0 {
        assert(lines(s) =~= parts);
    } else if parts.len() == 1 {
        assert(fits_a_line(parts[0]));
        lemma_no_position(s, '\n');
        assert(lines(s) =~= parts);
    } else {
        lemma_joined_front(parts);
        let head = parts[0];
        let rest = parts.skip(1);
        let n = head.len() as int;
        assert(fits_a_line(parts[0]));
        assert forall|k: int| 0 <= k < n implies s[k] != '\n' by {
            assert(s[k] == head[k]);
        }
        assert(s[n] == '\n');
        lemma_first_position(s, '\n', n);
        assert(s.take(n) =~= head);
        assert(s.skip(n + 1) =~= joined(rest));
        assert forall|i: int| 0 <= i < rest.len() implies fits_a_line(#[trigger] rest[i]) by {
            assert(rest[i] == parts[i + 1]);
        }
        assert(rest.last() == parts.last());
        joined_lines_read_back(rest);
        assert(lines(s) =~= parts);
    }
}

proof fn lemma_first_position_is_first(s: Seq<char>, c: char)
    ensures
        match first_position(s, c) {
            Some(n) => 0 <= n < s.len() && s[n] == c && (forall|k: int| 0 <= k < n ==> s[k] != c),
            None => free_of(s, c),
        },
    decreases s.len(),
{
    if s.len() > 0 && s[0] != c {
        let r = s.skip(1);
        lemma_first_position_is_first(r, c);
        assert forall|k: int| 1 <= k < s.len() implies s[k] == r[k - 1] by {}
    }
}

proof fn lemma_lines_fit(s: Seq<char>, i: int)
    requires
        free_of(s, '\r'),
        0 <= i < lines(s).len(),
    ensures
        fits_a_line(lines(s)[i]),
    decreases s.len(),
{
    lemma_first_position_is_first(s, '\n');
    if s.len() > 0 && first_position(s, '\n') is Some {
        let n = first_position(s, '\n')->0;
        let rest = s.skip(n + 1);
        if i > 0 {
            assert forall|k: int| 0 <= k < rest.len() implies rest[k] != '\r' by {
                assert(rest[k] == s[k + n + 1]);
            }
            lemma_lines_fit(rest, i - 1);
            assert(lines(s)[i] == lines(rest)[i - 1]);
        } else {
            assert(lines(s)[0] == without_return(s.take(n)));
        }
    }
}

proof fn lemma_replaced_fits(s: Seq<char>, from: Seq<char>, to: Seq<char>)
    requires
        fits_a_line(s),
        fits_a_line(to),
    ensures
        fits_a_line(replaced(s, from, to)),
    decreases s.len(),
{
    if s.len() > 0 && from.len() > 0 {
        if begins_with(s, from) {
            let r = s.skip(from.len() as int);
            assert(fits_a_line(r));
            lemma_replaced_fits(r, from, to);
        } else {
            let r = s.skip(1);
            assert(fits_a_line(r));
            lemma_replaced_fits(r, from, to);
        }
    }
}

proof fn lemma_client_line_fits(line: Seq<char>, psid: Seq<char>, complete: bool)
    requires
        fits_a_line(line),
        fits_a_line(psid),
    ensures
        fits_a_line(client_line(line, psid, complete)),
        line.len() > 0 ==> client_line(line, psid, complete).len() > 0,
{
    reveal_strlit("?PlaySessionId=");
    reveal_strlit("#EXT-X-PLAYLIST-TYPE:VOD");
    reveal_strlit("\"init.mp4\"");
    reveal_strlit("\"init.mp4?PlaySessionId=");
    reveal_strlit("\"");
    if is_segment_line(line) {
    } else if is_untagged_map_line(line) {
        lemma_replaced_fits(line, plain_init(), tagged_init(psid));
        lemma_map_line_is_no_segment(line);
        lemma_beginning_stays(line, plain_init(), tagged_init(psid), 11);
    }
}

/// A client reads its playlist back line by line: the lines that it gets are the
/// transcoder's lines, each made ready on its own. This is so where the playlist
/// holds no carriage return and does not end in an empty line, and the play
/// session's name fits a line.
pub proof fn client_playlists_read_back(is_live: bool, content: Seq<char>, psid: Seq<char>)
    requires
        free_of(content, '\r'),
        fits_a_line(psid),
        lines(content).len() > 0 ==> lines(content).last().len() > 0,
    ensures
        lines(client_playlist(is_live, content, psid)) == client_lines(
            content,
            psid,
            is_complete(is_live, content),
        ),
{
    let complete = is_complete(is_live, content);
    let ls = lines(content);
    let out = client_lines(content, psid, complete);
    assert forall|i: int| 0 <= i < out.len() implies fits_a_line(#[trigger] out[i]) by {
        lemma_lines_fit(content, i);
        lemma_client_line_fits(ls[i], psid, complete);
    }
    if out.len() > 0 {
        lemma_lines_fit(content, ls.len() - 1);
        lemma_client_line_fits(ls.last(), psid, complete);
    }
    joined_lines_read_back(out);
}

/// Nothing becomes of an empty playlist.
pub proof fn empty_playlists_stay_empty(is_live: bool, psid: Seq<char>)
    ensures
        client_playlist(is_live, Seq::empty(), psid) == Seq::<char>::empty(),
{
    let nothing = Seq::<char>::empty();
    assert(lines(nothing) =~= Seq::<Seq<char>>::empty());
    assert(client_lines(nothing, psid, is_complete(is_live, nothing)) =~= Seq::<
        Seq<char>,
    >::empty());
}

/// A line feed ends a line, a carriage return before it belongs to the end, and
/// what follows has lines of its own. What no line feed ends is a line unless it
/// is empty.
pub proof fn line_feeds_end_lines(line: Seq<char>, rest: Seq<char>)
    requires
        free_of(line, '\n'),
    ensures
        line.len() > 0 ==> lines(line) == seq![line],
        lines(Seq::empty()) == Seq::<Seq<char>>::empty(),
        line.len() == 0 || line.last() != '\r' ==> lines(line + seq!['\n'] + rest) == seq![line]
            + lines(rest),
        lines(line + seq!['\r', '\n'] + rest) == seq![line] + lines(rest),
{
    lemma_no_position(line, '\n');
    assert(lines(Seq::<char>::empty()) =~= Seq::<Seq<char>>::empty());
    let n = line.len() as int;
    let a = line + seq!['\n'] + rest;
    assert(forall|k: int| 0 <= k < n ==> a[k] == line[k]);
    lemma_first_position(a, '\n', n);
    assert(a.take(n) =~= line);
    assert(a.skip(n + 1) =~= rest);
    let b = line + seq!['\r', '\n'] + rest;
    assert(forall|k: int| 0 <= k < n ==> b[k] == line[k]);
    lemma_first_position(b, '\n', n + 1);
    assert(b.take(n + 1) =~= line.push('\r'));
    assert(line.push('\r').drop_last() =~= line);
    assert(b.skip(n + 2) =~= rest);
}

/// Texts are joined with one line feed between each two, none before the first and
/// none behind the last.
pub proof fn texts_are_joined_by_line_feeds(parts: Seq<Seq<char>>, last: Seq<char>)
    ensures
        joined(Seq::empty()) == Seq::<char>::empty(),
        joined(seq![last]) == last,
        parts.len() > 0 ==> joined(parts.push(last)) == joined(parts) + seq!['\n'] + last,
{
    assert(parts.push(last).drop_last() =~= parts);
}

/// Replacing keeps what stands before the first place, puts the replacement there,
/// and goes on behind it. A text without such a place stays.
pub proof fn replacing_goes_from_left_to_right(
    before: Seq<char>,
    from: Seq<char>,
    rest: Seq<char>,
    to: Seq<char>,
)
    requires
        from.len() > 0,
        forall|i: int| 0 <= i < before.len() ==> !occurs_at(before + from + rest, from, i),
    ensures
        replaced(before + from + rest, from, to) == before + to + replaced(rest, from, to),
        !has_part(rest, from) ==> replaced(rest, from, to) == rest,
    decreases before.len(),
{
    let s = before + from + rest;
    if !has_part(rest, from) {
        lemma_nothing_replaced(rest, from, to);
    }
    if before.len() == 0 {
        assert(s.subrange(0, from.len() as int) =~= from);
        assert(s.skip(from.len() as int) =~= rest);
        assert(before + to + replaced(rest, from, to) =~= to + replaced(rest, from, to));
    } else {
        assert(!occurs_at(s, from, 0));
        let tail = before.skip(1);
        assert(s.skip(1) =~= tail + from + rest);
        assert forall|i: int| 0 <= i < tail.len() implies !occurs_at(
            tail + from + rest,
            from,
            i,
        ) by {
            if occurs_at(tail + from + rest, from, i) {
                assert(s.subrange(i + 1, i + 1 + from.len()) =~= s.skip(1).subrange(
                    i,
                    i + from.len(),
                ));
                assert(occurs_at(s, from, i + 1));
            }
        }
        replacing_goes_from_left_to_right(tail, from, rest, to);
        assert(seq![s[0]] + (tail + to + replaced(rest, from, to)) =~= before + to + replaced(
            rest,
            from,
            to,
        ));
    }
}

/// Every line of ffmpeg's playlist reaches the client as it is, in a complete
/// playlist as in a growing one, but for three kinds: a segment gets the play
/// session behind its name, the name of the first part of a fragmented MP4 gets it
/// inside its quotes, and the type of a complete playlist becomes VOD.
pub proof fn other_lines_reach_the_client_unchanged(
    line: Seq<char>,
    psid: Seq<char>,
    complete: bool,
)
    ensures
        line.len() > 0 && line[0] == '#' && !begins_with(line, "#EXT-X-MAP:"@) && line
            != "#EXT-X-PLAYLIST-TYPE:EVENT"@ ==> client_line(line, psid, complete) == line,
        line.len() == 0 || line[0] != '#' ==> client_line(line, psid, complete) == (
        if finishes_with(line, ".ts"@) || finishes_with(line, ".m4s"@) {
            line + "?PlaySessionId="@ + psid
        } else {
            line
        }),
        begins_with(line, "#EXT-X-MAP:"@) && (has_part(line, "PlaySessionId"@) || !has_part(
            line,
            "\"init.mp4\""@,
        )) ==> client_line(line, psid, complete) == line,
        client_line("#EXT-X-PLAYLIST-TYPE:EVENT"@, psid, complete) == (if complete {
            "#EXT-X-PLAYLIST-TYPE:VOD"@
        } else {
            "#EXT-X-PLAYLIST-TYPE:EVENT"@
        }),
        client_line(line, psid, true) != client_line(line, psid, false) ==> line
            == "#EXT-X-PLAYLIST-TYPE:EVENT"@,
{
    let event = "#EXT-X-PLAYLIST-TYPE:EVENT"@;
    reveal_strlit("#");
    reveal_strlit("#EXT-X-MAP:");
    reveal_strlit("#EXT-X-PLAYLIST-TYPE:EVENT");
    crate::text::parts_stand_where_their_characters_do(line, "#"@, 0);
    crate::text::parts_stand_where_their_characters_do(event, "#"@, 0);
    assert("#"@[0] == '#');
    assert(begins_with(line, "#"@) <==> line.len() > 0 && line[0] == '#');
    assert(begins_with(event, "#"@));
    if begins_with(line, "#EXT-X-MAP:"@) {
        lemma_map_line_is_no_segment(line);
        if !has_part(line, plain_init()) {
            lemma_nothing_replaced(line, plain_init(), tagged_init(psid));
        }
    }
    if begins_with(event, "#EXT-X-MAP:"@) {
        lemma_map_line_is_no_segment(event);
        assert(event[7] == 'P');
    }
}

/// The first part of a fragmented MP4 gets the play session inside its quotes, and
/// what stands around its name stays.
pub proof fn first_parts_get_the_session(
    before: Seq<char>,
    after: Seq<char>,
    psid: Seq<char>,
    complete: bool,
)
    requires
        begins_with(before, "#EXT-X-MAP:"@),
        !has_part(before + "\"init.mp4\""@ + after, "PlaySessionId"@),
        forall|i: int|
            0 <= i < before.len() ==> !occurs_at(
                before + "\"init.mp4\""@ + after,
                "\"init.mp4\""@,
                i,
            ),
        !has_part(after, "\"init.mp4\""@),
    ensures
        client_line(before + "\"init.mp4\""@ + after, psid, complete) == before
            + "\"init.mp4?PlaySessionId="@ + psid + "\""@ + after,
{
    reveal_strlit("\"init.mp4\"");
    reveal_strlit("#EXT-X-MAP:");
    let line = before + "\"init.mp4\""@ + after;
    assert(line.subrange(0, 11) =~= before.subrange(0, 11));
    lemma_map_line_is_no_segment(line);
    replacing_goes_from_left_to_right(before, plain_init(), after, tagged_init(psid));
    assert(before + tagged_init(psid) + after =~= before + "\"init.mp4?PlaySessionId="@ + psid
        + "\""@ + after);
}

/// A rewritten playlist has the lines of ffmpeg's playlist, each made ready on its
/// own. It counts as complete exactly if it is not live and ffmpeg has ended it.
pub proof fn playlists_are_rewritten_line_by_line(
    is_live: bool,
    content: &str,
    psid: &str,
    r: String,
)
    requires
        call_ensures(rewrite_playlist, (is_live, content, psid), r),
    ensures
        exists|out: Seq<Seq<char>>|
            {
                &&& r@ == #[trigger] joined(out)
                &&& out.len() == lines(content@).len()
                &&& forall|i: int|
                    0 <= i < out.len() ==> #[trigger] out[i] == client_line(
                        lines(content@)[i],
                        psid@,
                        !is_live && has_part(content@, "#EXT-X-ENDLIST"@),
                    )
            },
{
    let out = client_lines(content@, psid@, is_complete(is_live, content@));
    assert(r@ == joined(out));
}

/// A playlist has a segment exactly if ffmpeg has written a duration into it.
pub proof fn segments_have_durations(content: &str, r: bool)
    requires
        call_ensures(playlist_has_segment, (content,), r),
    ensures
        r <==> has_part(content@, "#EXTINF"@),
{
}

} // verus!
