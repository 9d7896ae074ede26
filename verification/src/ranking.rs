//! External subtitles: which of them a source gets, and in which order.

use vstd::prelude::*;
use vstd::relations::sorted_by;
use vstd::relations::total_ordering;

use crate::language::lang_to_two_letter;
use crate::language::two_letter;
use crate::media::StreamDescriptor;
use crate::media::SubtitleInfo;
use crate::text::after_last;
use crate::text::ascii_lowered;
use crate::text::same_ignoring_ascii_case;
use crate::text::same_text;
use crate::text::tail_after;
use crate::text::trim;
use crate::text::trimmed;
use crate::words::count_shared;
use crate::words::tokens;
use crate::words::tokens_of;

verus! {

// ---------------------------------------------------------------------------
// Score
// ---------------------------------------------------------------------------

/// The text that says where a subtitle lies; empty where none does.
pub open spec fn path_hint(sub: SubtitleInfo) -> Seq<char> {
    match sub.url {
        Some(StreamDescriptor::Http { url }) => url@,
        Some(StreamDescriptor::Local(Some(path))) => path@,
        Some(StreamDescriptor::Opendal { path, .. }) => path@,
        _ => Seq::empty(),
    }
}

/// The text that says where a subtitle lies.
pub fn subtitle_path_hint(sub: &SubtitleInfo) -> (r: &str)
    ensures
        r@ == path_hint(*sub),
{
    proof {
        reveal_strlit("");
        assert(""@ =~= Seq::<char>::empty());
    }
    match &sub.url {
        Some(StreamDescriptor::Http { url }) => url.as_str(),
        Some(StreamDescriptor::Local(Some(path))) => path.as_str(),
        Some(StreamDescriptor::Opendal { path, .. }) => path.as_str(),
        _ => "",
    }
}

/// A text that may be missing, which then counts as empty.
pub open spec fn text_or_empty(t: Option<String>) -> Seq<char> {
    match t {
        Some(s) => s@,
        None => Seq::empty(),
    }
}

/// How many words the file name of a subtitle shares with the name and the path
/// of a source.
pub open spec fn score(
    sub: SubtitleInfo,
    source_name: Option<String>,
    source_path: Option<String>,
) -> i32 {
    tokens(after_last(path_hint(sub), '/')).intersect(
        tokens(text_or_empty(source_name)).union(tokens(text_or_empty(source_path))),
    ).len() as i32
}

fn tokens_of_optional(t: &Option<String>) -> (r: Vec<String>)
    ensures
        crate::text::texts(r@).to_set() == tokens(text_or_empty(*t)),
{
    proof {
        reveal_strlit("");
        assert(""@ =~= Seq::<char>::empty());
    }
    match t {
        Some(s) => tokens_of(s.as_str()),
        None => tokens_of(""),
    }
}

/// Counts the words that a subtitle's file name shares with a source.
pub fn score_sub_url(
    sub: &SubtitleInfo,
    source_name: &Option<String>,
    source_path: &Option<String>,
) -> (r: i32)
    ensures
        r == score(*sub, *source_name, *source_path),
{
    let file: String = tail_after(subtitle_path_hint(sub), '/');
    let own: Vec<String> = tokens_of(file.as_str());
    let names: Vec<String> = tokens_of_optional(source_name);
    let paths: Vec<String> = tokens_of_optional(source_path);
    count_shared(&own, &names, &paths) as i32
}

// ---------------------------------------------------------------------------
// Wanted languages
// ---------------------------------------------------------------------------

/// A subtitle is in the language that a preference names.
pub open spec fn speaks(sub: SubtitleInfo, wanted: String) -> bool {
    match sub.lang {
        Some(lang) => match two_letter(lang@) {
            Some(two) => ascii_lowered(two) == ascii_lowered(trimmed(wanted@)),
            None => false,
        },
        None => false,
    }
}

/// The first preference from `from` on that a subtitle meets.
pub open spec fn first_wanted(sub: SubtitleInfo, langs: Seq<String>, from: int) -> Option<int>
    decreases langs.len() - from,
{
    if from >= langs.len() {
        None
    } else if speaks(sub, langs[from]) {
        Some(from)
    } else {
        first_wanted(sub, langs, from + 1)
    }
}

/// The place of a subtitle's language among the preferences; a language that is
/// not among them comes after all that are.
pub open spec fn lang_rank(sub: SubtitleInfo, langs: Seq<String>) -> int {
    match first_wanted(sub, langs, 0) {
        Some(i) => i,
        None => usize::MAX as int,
    }
}

/// A subtitle is wanted: there are no preferences, or it meets one.
pub open spec fn is_wanted(sub: SubtitleInfo, langs: Seq<String>) -> bool {
    langs.len() == 0 || exists|i: int| 0 <= i < langs.len() && speaks(sub, #[trigger] langs[i])
}

proof fn lemma_first_wanted(sub: SubtitleInfo, langs: Seq<String>, from: int)
    requires
        0 <= from,
    ensures
        match first_wanted(sub, langs, from) {
            Some(i) => from <= i < langs.len() && speaks(sub, langs[i]) && (forall|k: int|
                from <= k < i ==> !speaks(sub, #[trigger] langs[k])),
            None => forall|k: int| from <= k < langs.len() ==> !speaks(sub, #[trigger] langs[k]),
        },
    decreases langs.len() - from,
{
    if from < langs.len() && !speaks(sub, langs[from]) {
        lemma_first_wanted(sub, langs, from + 1);
    }
}

/// Finds the first preference that a subtitle meets.
fn find_wanted(sub: &SubtitleInfo, langs: &Vec<String>) -> (r: Option<usize>)
    ensures
        match r {
            Some(i) => first_wanted(*sub, langs@, 0) == Some(i as int) && i < langs.len(),
            None => first_wanted(*sub, langs@, 0) is None,
        },
{
    let two: Option<String> = match &sub.lang {
        Some(lang) => lang_to_two_letter(lang.as_str()),
        None => None,
    };
    match two {
        Some(code) => {
            let mut i: usize = 0;
            while i < langs.len()
                invariant
                    i <= langs.len(),
                    sub.lang matches Some(lang) && two_letter(lang@) == Some(code@),
                    first_wanted(*sub, langs@, 0) == first_wanted(*sub, langs@, i as int),
                decreases langs.len() - i,
            {
                let wanted: String = trim(langs[i].as_str());
                if same_ignoring_ascii_case(code.as_str(), wanted.as_str()) {
                    return Some(i);
                }
                i += 1;
            }
            None
        },
        None => {
            proof {
                lemma_first_wanted(*sub, langs@, 0);
            }
            None
        },
    }
}

// ---------------------------------------------------------------------------
// Order
// ---------------------------------------------------------------------------

/// The positions of the wanted ones among the first `n` subtitles.
pub open spec fn wanted_positions(
    subs: Seq<SubtitleInfo>,
    langs: Seq<String>,
    n: int,
) -> Seq<int>
    decreases n,
{
    if n <= 0 {
        Seq::empty()
    } else if is_wanted(subs[n - 1], langs) {
        wanted_positions(subs, langs, n - 1).push(n - 1)
    } else {
        wanted_positions(subs, langs, n - 1)
    }
}

/// Position `i` goes before position `j`, or is the same: by language rank, then
/// by the higher score, then as the subtitles came.
pub open spec fn goes_before(
    subs: Seq<SubtitleInfo>,
    langs: Seq<String>,
    source_name: Option<String>,
    source_path: Option<String>,
    i: int,
    j: int,
) -> bool {
    let a = lang_rank(subs[i], langs);
    let b = lang_rank(subs[j], langs);
    let x = score(subs[i], source_name, source_path);
    let y = score(subs[j], source_name, source_path);
    a < b || (a == b && (x > y || (x == y && i <= j)))
}

/// `goes_before` as a relation between positions.
pub open spec fn preference(
    subs: Seq<SubtitleInfo>,
    langs: Seq<String>,
    source_name: Option<String>,
    source_path: Option<String>,
) -> spec_fn(int, int) -> bool {
    |i: int, j: int| goes_before(subs, langs, source_name, source_path, i, j)
}

/// The positions of the wanted subtitles, the preferred ones first.
pub open spec fn ranking(
    subs: Seq<SubtitleInfo>,
    langs: Seq<String>,
    source_name: Option<String>,
    source_path: Option<String>,
) -> Seq<int> {
    wanted_positions(subs, langs, subs.len() as int).sort_by(
        preference(subs, langs, source_name, source_path),
    )
}

/// The text under which subtitles of one language are counted.
pub open spec fn lang_key(sub: SubtitleInfo) -> Seq<char> {
    match sub.lang {
        Some(lang) => lang@,
        None => "und"@,
    }
}

/// How many of the subtitles at `order` have a language text.
pub open spec fn count_lang(subs: Seq<SubtitleInfo>, order: Seq<int>, key: Seq<char>) -> nat
    decreases order.len(),
{
    if order.len() == 0 {
        0
    } else {
        count_lang(subs, order.drop_last(), key) + if lang_key(subs[order.last()]) == key {
            1nat
        } else {
            0nat
        }
    }
}

/// The first two positions of each language text, in the same order.
pub open spec fn shortlist(subs: Seq<SubtitleInfo>, order: Seq<int>) -> Seq<int>
    decreases order.len(),
{
    if order.len() == 0 {
        Seq::empty()
    } else {
        let head = order.drop_last();
        if count_lang(subs, head, lang_key(subs[order.last()])) < 2 {
            shortlist(subs, head).push(order.last())
        } else {
            shortlist(subs, head)
        }
    }
}

/// The positions of the subtitles that a source gets, in their order.
pub open spec fn external_positions(
    subs: Seq<SubtitleInfo>,
    langs: Seq<String>,
    source_name: Option<String>,
    source_path: Option<String>,
) -> Seq<int> {
    shortlist(subs, ranking(subs, langs, source_name, source_path))
}

/// Positions as mathematical integers.
pub open spec fn ints(v: Seq<usize>) -> Seq<int> {
    v.map_values(|i: usize| i as int)
}

proof fn lemma_preference_orders(
    subs: Seq<SubtitleInfo>,
    langs: Seq<String>,
    source_name: Option<String>,
    source_path: Option<String>,
)
    ensures
        total_ordering(preference(subs, langs, source_name, source_path)),
{
}

/// Puts position `at` into an order of earlier positions, behind all that go
/// before it.
fn insert_ranked(
    order: &mut Vec<usize>,
    at: usize,
    ranks: &Vec<usize>,
    scores: &Vec<i32>,
    subs: &Vec<SubtitleInfo>,
    langs: &Vec<String>,
    source_name: &Option<String>,
    source_path: &Option<String>,
)
    requires
        at < subs.len(),
        ranks.len() == subs.len(),
        scores.len() == subs.len(),
        forall|k: int|
            0 <= k < subs.len() ==> #[trigger] ranks@[k] == lang_rank(subs@[k], langs@)
                && scores@[k] == score(subs@[k], *source_name, *source_path),
        forall|k: int| 0 <= k < old(order).len() ==> #[trigger] old(order)@[k] < at,
        sorted_by(
            ints(old(order)@),
            preference(subs@, langs@, *source_name, *source_path),
        ),
    ensures
        sorted_by(
            ints(final(order)@),
            preference(subs@, langs@, *source_name, *source_path),
        ),
        ints(final(order)@).to_multiset() == ints(old(order)@).to_multiset().insert(at as int),
        forall|k: int| 0 <= k < final(order).len() ==> #[trigger] final(order)@[k] <= at,
{
    let ghost leq = preference(subs@, langs@, *source_name, *source_path);
    let ghost before = order@;
    let mut p: usize = order.len();
    let mut done: bool = false;
    proof {
        lemma_preference_orders(subs@, langs@, *source_name, *source_path);
    }
    while p > 0 && !done
        invariant
            p <= order.len(),
            order@ == before,
            at < subs.len(),
            ranks.len() == subs.len(),
            scores.len() == subs.len(),
            leq == preference(subs@, langs@, *source_name, *source_path),
            forall|k: int|
                0 <= k < subs.len() ==> #[trigger] ranks@[k] == lang_rank(subs@[k], langs@)
                    && scores@[k] == score(subs@[k], *source_name, *source_path),
            forall|k: int| 0 <= k < order.len() ==> #[trigger] order@[k] < at,
            forall|k: int| p <= k < order.len() ==> leq(at as int, #[trigger] ints(before)[k]),
            done ==> p > 0 && leq(ints(before)[p - 1], at as int),
        decreases p + (if done { 0int } else { 1int }),
    {
        let other: usize = order[p - 1];
        assert(other < at);
        assert(ints(before)[p - 1] == other as int);
        assert(ranks@[other as int] == lang_rank(subs@[other as int], langs@));
        assert(ranks@[at as int] == lang_rank(subs@[at as int], langs@));
        if ranks[other] < ranks[at] || (ranks[other] == ranks[at] && scores[other] >= scores[at]) {
            done = true;
        } else {
            p -= 1;
        }
    }
    order.insert(p, at);
    proof {
        let new = ints(order@);
        let old_ints = ints(before);
        assert(new =~= old_ints.insert(p as int, at as int));
        vstd::seq_lib::to_multiset_insert(old_ints, p as int, at as int);
        assert forall|i: int, j: int| 0 <= i < j < new.len() implies #[trigger] leq(
            new[i],
            new[j],
        ) by {
            if i < p && j == p {
                if i < p - 1 {
                    assert(leq(old_ints[i], old_ints[p - 1]));
                }
            } else if i == p {
                assert(new[j] == old_ints[j - 1]);
            } else if i < p {
                if j < p {
                    assert(leq(old_ints[i], old_ints[j]));
                } else {
                    assert(leq(old_ints[i], old_ints[j - 1]));
                }
            } else {
                assert(leq(old_ints[i - 1], old_ints[j - 1]));
            }
        }
    }
}

/// The positions of the wanted subtitles, the preferred ones first.
#[verifier::spinoff_prover]
fn rank_positions(
    subs: &Vec<SubtitleInfo>,
    langs: &Vec<String>,
    source_name: &Option<String>,
    source_path: &Option<String>,
) -> (order: Vec<usize>)
    ensures
        ints(order@) == ranking(subs@, langs@, *source_name, *source_path),
        forall|k: int| 0 <= k < order.len() ==> #[trigger] order@[k] < subs.len(),
{
    let mut ranks: Vec<usize> = Vec::new();
    let mut scores: Vec<i32> = Vec::new();
    let mut wanted: Vec<bool> = Vec::new();
    let mut i: usize = 0;
    while i < subs.len()
        invariant
            i <= subs.len(),
            ranks.len() == i,
            scores.len() == i,
            wanted.len() == i,
            forall|k: int|
                0 <= k < i ==> #[trigger] ranks@[k] == lang_rank(subs@[k], langs@) && scores@[k]
                    == score(subs@[k], *source_name, *source_path) && wanted@[k] == is_wanted(
                    subs@[k],
                    langs@,
                ),
        decreases subs.len() - i,
    {
        let found: Option<usize> = find_wanted(&subs[i], langs);
        proof {
            lemma_first_wanted(subs@[i as int], langs@, 0);
        }
        ranks.push(
            match found {
                Some(r) => r,
                None => usize::MAX,
            },
        );
        scores.push(score_sub_url(&subs[i], source_name, source_path));
        wanted.push(langs.is_empty() || found.is_some());
        i += 1;
    }
    let ghost leq = preference(subs@, langs@, *source_name, *source_path);
    let mut order: Vec<usize> = Vec::new();
    let mut n: usize = 0;
    assert(ints(order@) =~= wanted_positions(subs@, langs@, 0));
    while n < subs.len()
        invariant
            n <= subs.len(),
            ranks.len() == subs.len(),
            scores.len() == subs.len(),
            wanted.len() == subs.len(),
            leq == preference(subs@, langs@, *source_name, *source_path),
            forall|k: int|
                0 <= k < subs.len() ==> #[trigger] ranks@[k] == lang_rank(subs@[k], langs@)
                    && scores@[k] == score(subs@[k], *source_name, *source_path) && wanted@[k]
                    == is_wanted(subs@[k], langs@),
            sorted_by(ints(order@), leq),
            ints(order@).to_multiset() == wanted_positions(subs@, langs@, n as int).to_multiset(),
            forall|k: int| 0 <= k < order.len() ==> #[trigger] order@[k] < n,
        decreases subs.len() - n,
    {
        assert(ranks@[n as int] == lang_rank(subs@[n as int], langs@));
        if wanted[n] {
            insert_ranked(
                &mut order,
                n,
                &ranks,
                &scores,
                subs,
                langs,
                source_name,
                source_path,
            );
            proof {
                vstd::seq_lib::to_multiset_build(
                    wanted_positions(subs@, langs@, n as int),
                    n as int,
                );
            }
        }
        n += 1;
    }
    proof {
        let all = wanted_positions(subs@, langs@, subs@.len() as int);
        lemma_preference_orders(subs@, langs@, *source_name, *source_path);
        all.lemma_sort_by_ensures(leq);
        vstd::seq_lib::lemma_sorted_unique(ints(order@), all.sort_by(leq), leq);
    }
    order
}

fn lang_text(sub: &SubtitleInfo) -> (r: &str)
    ensures
        r@ == lang_key(*sub),
{
    match &sub.lang {
        Some(lang) => lang.as_str(),
        None => "und",
    }
}

/// The positions of the subtitles that a source gets, in their order.
pub fn external_order(
    subs: &Vec<SubtitleInfo>,
    langs: &Vec<String>,
    source_name: &Option<String>,
    source_path: &Option<String>,
) -> (r: Vec<usize>)
    ensures
        ints(r@) == external_positions(subs@, langs@, *source_name, *source_path),
        forall|k: int| 0 <= k < r.len() ==> #[trigger] r@[k] < subs.len(),
{
    let order: Vec<usize> = rank_positions(subs, langs, source_name, source_path);
    let ghost all = ints(order@);
    let mut out: Vec<usize> = Vec::new();
    let mut k: usize = 0;
    assert(all.take(0) =~= Seq::<int>::empty());
    assert(ints(out@) =~= shortlist(subs@, all.take(0)));
    while k < order.len()
        invariant
            k <= order.len(),
            all == ints(order@),
            forall|j: int| 0 <= j < order.len() ==> #[trigger] order@[j] < subs.len(),
            forall|j: int| 0 <= j < out.len() ==> #[trigger] out@[j] < subs.len(),
            ints(out@) == shortlist(subs@, all.take(k as int)),
        decreases order.len() - k,
    {
        let at: usize = order[k];
        let key: &str = lang_text(&subs[at]);
        let mut seen: usize = 0;
        let mut m: usize = 0;
        assert(all.take(0) =~= Seq::<int>::empty());
        while m < k
            invariant
                m <= k < order.len(),
                seen <= m,
                all == ints(order@),
                forall|j: int| 0 <= j < order.len() ==> #[trigger] order@[j] < subs.len(),
                seen == count_lang(subs@, all.take(m as int), key@),
            decreases k - m,
        {
            assert(all.take(m + 1).drop_last() =~= all.take(m as int));
            assert(all.take(m + 1).last() == order@[m as int] as int);
            if same_text(lang_text(&subs[order[m]]), key) {
                seen += 1;
            }
            m += 1;
        }
        proof {
            assert(all.take(k + 1).drop_last() =~= all.take(k as int));
            assert(all.take(k + 1).last() == at as int);
        }
        let ghost before = out@;
        if seen < 2 {
            out.push(at);
            assert(ints(out@) =~= ints(before).push(at as int));
        }
        k += 1;
    }
    assert(all.take(k as int) =~= all);
    out
}

/// The external subtitles that a source gets, in the order in which they get
/// their stream indices: those in a wanted language, by language preference and
/// then by how well their file name fits the source, at most two of each
/// language.
pub fn scored_external_subtitles<'a>(
    subs: &'a Vec<SubtitleInfo>,
    sub_langs: &Vec<String>,
    source_name: &Option<String>,
    source_path: &Option<String>,
) -> (r: Vec<&'a SubtitleInfo>)
    ensures
        r@ == external_positions(subs@, sub_langs@, *source_name, *source_path).map_values(
            |i: int| &subs@[i],
        ),
{
    let order: Vec<usize> = external_order(subs, sub_langs, source_name, source_path);
    let mut r: Vec<&'a SubtitleInfo> = Vec::new();
    let mut k: usize = 0;
    while k < order.len()
        invariant
            k <= order.len(),
            forall|j: int| 0 <= j < order.len() ==> #[trigger] order@[j] < subs.len(),
            r@ =~= ints(order@).take(k as int).map_values(|i: int| &subs@[i]),
        decreases order.len() - k,
    {
        r.push(&subs[order[k]]);
        k += 1;
        assert(ints(order@).take(k as int) =~= ints(order@).take(k - 1).push(
            order@[k - 1] as int,
        ));
    }
    assert(ints(order@).take(k as int) =~= ints(order@));
    r
}

// ---------------------------------------------------------------------------
// Laws
// ---------------------------------------------------------------------------

/// Of each language text a shortlist holds as many as the order does, but no
/// more than two.
pub proof fn shortlists_hold_two_per_language(
    subs: Seq<SubtitleInfo>,
    order: Seq<int>,
    key: Seq<char>,
)
    ensures
        count_lang(subs, shortlist(subs, order), key) == (if count_lang(subs, order, key) < 2 {
            count_lang(subs, order, key)
        } else {
            2
        }),
    decreases order.len(),
{
    if order.len() > 0 {
        let head = order.drop_last();
        shortlists_hold_two_per_language(subs, head, key);
        let kept = shortlist(subs, head);
        if count_lang(subs, head, lang_key(subs[order.last()])) < 2 {
            assert(kept.push(order.last()).drop_last() =~= kept);
        }
    }
}

proof fn lemma_wanted_positions(subs: Seq<SubtitleInfo>, langs: Seq<String>, n: int)
    requires
        0 <= n <= subs.len(),
    ensures
        wanted_positions(subs, langs, n).no_duplicates(),
        forall|i: int|
            wanted_positions(subs, langs, n).contains(i) <==> 0 <= i < n && is_wanted(
                subs[i],
                langs,
            ),
    decreases n,
{
    let all = wanted_positions(subs, langs, n);
    if n > 0 {
        let head = wanted_positions(subs, langs, n - 1);
        lemma_wanted_positions(subs, langs, n - 1);
        assert(!head.contains(n - 1));
        if is_wanted(subs[n - 1], langs) {
            assert forall|i: int| all.contains(i) <==> head.contains(i) || i == n - 1 by {
                if head.contains(i) {
                    let k = choose|k: int| 0 <= k < head.len() && head[k] == i;
                    assert(all[k] == i);
                }
                if i == n - 1 {
                    assert(all[head.len() as int] == i);
                }
            }
            assert forall|a: int, b: int| 0 <= a < all.len() && 0 <= b < all.len() && a != b implies
                all[a] != all[b] by {
                if a < head.len() {
                    assert(head.contains(head[a]));
                }
                if b < head.len() {
                    assert(head.contains(head[b]));
                }
            }
        }
    }
}

/// The ranking holds each wanted subtitle once and no other, and each goes
/// before all that follow it.
pub proof fn rankings_hold_the_wanted(
    subs: Seq<SubtitleInfo>,
    langs: Seq<String>,
    source_name: Option<String>,
    source_path: Option<String>,
)
    ensures
        ranking(subs, langs, source_name, source_path).no_duplicates(),
        forall|i: int|
            ranking(subs, langs, source_name, source_path).contains(i) <==> 0 <= i < subs.len()
                && is_wanted(subs[i], langs),
        sorted_by(
            ranking(subs, langs, source_name, source_path),
            preference(subs, langs, source_name, source_path),
        ),
{
    let leq = preference(subs, langs, source_name, source_path);
    let all = wanted_positions(subs, langs, subs.len() as int);
    let order = ranking(subs, langs, source_name, source_path);
    lemma_wanted_positions(subs, langs, subs.len() as int);
    lemma_preference_orders(subs, langs, source_name, source_path);
    all.lemma_sort_by_ensures(leq);
    all.lemma_multiset_has_no_duplicates();
    order.lemma_multiset_has_no_duplicates_conv();
    assert forall|i: int| order.contains(i) <==> all.contains(i) by {
        vstd::seq_lib::to_multiset_contains(order, i);
        vstd::seq_lib::to_multiset_contains(all, i);
    }
}

proof fn lemma_shortlist_keeps_order(
    subs: Seq<SubtitleInfo>,
    order: Seq<int>,
    leq: spec_fn(int, int) -> bool,
)
    requires
        sorted_by(order, leq),
        order.no_duplicates(),
    ensures
        sorted_by(shortlist(subs, order), leq),
        shortlist(subs, order).no_duplicates(),
        forall|i: int| #[trigger] shortlist(subs, order).contains(i) ==> order.contains(i),
    decreases order.len(),
{
    if order.len() > 0 {
        let head = order.drop_last();
        let last = order.last();
        assert(head.no_duplicates());
        assert(sorted_by(head, leq)) by {
            assert forall|a: int, b: int| 0 <= a < b < head.len() implies #[trigger] leq(
                head[a],
                head[b],
            ) by {
                assert(leq(order[a], order[b]));
            }
        }
        lemma_shortlist_keeps_order(subs, head, leq);
        let kept = shortlist(subs, head);
        let all = shortlist(subs, order);
        assert forall|i: int| head.contains(i) implies order.contains(i) && i != last && leq(
            i,
            last,
        ) by {
            let k = choose|k: int| 0 <= k < head.len() && head[k] == i;
            assert(order[k] == i);
            assert(leq(order[k], order[order.len() - 1]));
        }
        assert(order[order.len() - 1] == last);
        if count_lang(subs, head, lang_key(subs[last])) < 2 {
            assert forall|i: int| #[trigger] all.contains(i) implies order.contains(i) by {
                let k = choose|k: int| 0 <= k < all.len() && all[k] == i;
                if k < kept.len() {
                    assert(kept[k] == i);
                    assert(kept.contains(i));
                }
            }
            assert forall|a: int, b: int| 0 <= a < b < all.len() implies #[trigger] leq(
                all[a],
                all[b],
            ) by {
                assert(kept.contains(kept[a]));
                if b < kept.len() {
                    assert(leq(kept[a], kept[b]));
                }
            }
            assert forall|a: int, b: int| 0 <= a < all.len() && 0 <= b < all.len() && a != b implies
                all[a] != all[b] by {
                if a < kept.len() {
                    assert(kept.contains(kept[a]));
                }
                if b < kept.len() {
                    assert(kept.contains(kept[b]));
                }
            }
        } else {
            assert forall|i: int| #[trigger] all.contains(i) implies order.contains(i) by {
                assert(head.contains(i));
            }
        }
    }
}

/// The subtitles that a source gets: each of them is wanted, none comes twice,
/// each goes before all that follow it, and no language has more than two.
pub proof fn external_subtitles_are_preferred(
    subs: Seq<SubtitleInfo>,
    langs: Seq<String>,
    source_name: Option<String>,
    source_path: Option<String>,
)
    ensures
        ({
            let got = external_positions(subs, langs, source_name, source_path);
            &&& got.no_duplicates()
            &&& forall|k: int|
                0 <= k < got.len() ==> 0 <= #[trigger] got[k] < subs.len() && is_wanted(
                    subs[got[k]],
                    langs,
                )
            &&& forall|a: int, b: int|
                0 <= a < b < got.len() ==> goes_before(
                    subs,
                    langs,
                    source_name,
                    source_path,
                    #[trigger] got[a],
                    #[trigger] got[b],
                )
            &&& forall|key: Seq<char>| #[trigger] count_lang(subs, got, key) <= 2
        }),
{
    let leq = preference(subs, langs, source_name, source_path);
    let order = ranking(subs, langs, source_name, source_path);
    let got = external_positions(subs, langs, source_name, source_path);
    rankings_hold_the_wanted(subs, langs, source_name, source_path);
    lemma_shortlist_keeps_order(subs, order, leq);
    assert forall|k: int| 0 <= k < got.len() implies 0 <= #[trigger] got[k] < subs.len()
        && is_wanted(subs[got[k]], langs) by {
        assert(got.contains(got[k]));
        assert(order.contains(got[k]));
    }
    assert forall|a: int, b: int| 0 <= a < b < got.len() implies goes_before(
        subs,
        langs,
        source_name,
        source_path,
        #[trigger] got[a],
        #[trigger] got[b],
    ) by {
        assert(leq(got[a], got[b]));
    }
    assert forall|key: Seq<char>| #[trigger] count_lang(subs, got, key) <= 2 by {
        shortlists_hold_two_per_language(subs, order, key);
    }
}

proof fn lemma_left_out(subs: Seq<SubtitleInfo>, order: Seq<int>, k: int)
    requires
        0 <= k < order.len(),
        order.no_duplicates(),
        !shortlist(subs, order).contains(order[k]),
    ensures
        count_lang(subs, order.take(k), lang_key(subs[order[k]])) >= 2,
    decreases order.len(),
{
    let head = order.drop_last();
    let kept = shortlist(subs, head);
    let all = shortlist(subs, order);
    if k == order.len() - 1 {
        assert(order.take(k) =~= head);
        if count_lang(subs, head, lang_key(subs[order.last()])) < 2 {
            assert(all[kept.len() as int] == order[k]);
            assert(all.contains(order[k]));
        }
    } else {
        assert(head[k] == order[k]);
        if kept.contains(order[k]) {
            let m = choose|m: int| 0 <= m < kept.len() && kept[m] == order[k];
            assert(all[m] == order[k]);
            assert(all.contains(order[k]));
        }
        lemma_left_out(subs, head, k);
        assert(head.take(k) =~= order.take(k));
    }
}

/// A wanted subtitle is left out only for two others of its language that go
/// before it.
pub proof fn left_out_subtitles_have_two_betters(
    subs: Seq<SubtitleInfo>,
    langs: Seq<String>,
    source_name: Option<String>,
    source_path: Option<String>,
    i: int,
)
    requires
        0 <= i < subs.len(),
        is_wanted(subs[i], langs),
        !external_positions(subs, langs, source_name, source_path).contains(i),
    ensures
        exists|a: int, b: int|
            #![trigger subs[a], subs[b]]
            {
                &&& a != b
                &&& external_positions(subs, langs, source_name, source_path).contains(a)
                &&& external_positions(subs, langs, source_name, source_path).contains(b)
                &&& lang_key(subs[a]) == lang_key(subs[i])
                &&& lang_key(subs[b]) == lang_key(subs[i])
                &&& goes_before(subs, langs, source_name, source_path, a, i)
                &&& goes_before(subs, langs, source_name, source_path, b, i)
            },
{
    let leq = preference(subs, langs, source_name, source_path);
    let order = ranking(subs, langs, source_name, source_path);
    let got = external_positions(subs, langs, source_name, source_path);
    let key = lang_key(subs[i]);
    rankings_hold_the_wanted(subs, langs, source_name, source_path);
    assert(order.contains(i));
    let k = choose|k: int| 0 <= k < order.len() && order[k] == i;
    lemma_left_out(subs, order, k);
    let head = order.take(k);
    assert(head.no_duplicates());
    shortlists_hold_two_per_language(subs, head, key);
    let kept = shortlist(subs, head);
    assert(sorted_by(head, leq)) by {
        assert forall|a: int, b: int| 0 <= a < b < head.len() implies #[trigger] leq(
            head[a],
            head[b],
        ) by {
            assert(leq(order[a], order[b]));
        }
    }
    lemma_shortlist_keeps_order(subs, head, leq);
    lemma_two_of(subs, kept, key);
    let (a, b) = choose|a: int, b: int|
        0 <= a < b < kept.len() && lang_key(subs[#[trigger] kept[a]]) == key && lang_key(
            subs[#[trigger] kept[b]],
        ) == key;
    lemma_shortlist_grows(subs, order, k);
    assert forall|x: int| kept.contains(x) implies leq(x, i) && got.contains(x) by {
        assert(head.contains(x));
        let m = choose|m: int| 0 <= m < head.len() && head[m] == x;
        assert(leq(order[m], order[k]));
    }
    assert(kept.contains(kept[a]));
    assert(kept.contains(kept[b]));
    let x = subs[kept[a]];
    let y = subs[kept[b]];
}

/// Where a language text is counted twice, two positions hold it.
proof fn lemma_two_of(subs: Seq<SubtitleInfo>, order: Seq<int>, key: Seq<char>)
    requires
        count_lang(subs, order, key) >= 2,
    ensures
        exists|a: int, b: int|
            0 <= a < b < order.len() && lang_key(subs[#[trigger] order[a]]) == key && lang_key(
                subs[#[trigger] order[b]],
            ) == key,
    decreases order.len(),
{
    if order.len() > 0 {
        let head = order.drop_last();
        if lang_key(subs[order.last()]) == key {
            lemma_one_of(subs, head, key);
            let a = choose|a: int| 0 <= a < head.len() && lang_key(subs[#[trigger] head[a]]) == key;
            assert(order[a] == head[a]);
            assert(order[order.len() - 1] == order.last());
        } else {
            lemma_two_of(subs, head, key);
            let (a, b) = choose|a: int, b: int|
                0 <= a < b < head.len() && lang_key(subs[#[trigger] head[a]]) == key && lang_key(
                    subs[#[trigger] head[b]],
                ) == key;
            assert(order[a] == head[a]);
            assert(order[b] == head[b]);
        }
    }
}

proof fn lemma_one_of(subs: Seq<SubtitleInfo>, order: Seq<int>, key: Seq<char>)
    requires
        count_lang(subs, order, key) >= 1,
    ensures
        exists|a: int| 0 <= a < order.len() && lang_key(subs[#[trigger] order[a]]) == key,
    decreases order.len(),
{
    if order.len() > 0 {
        let head = order.drop_last();
        if lang_key(subs[order.last()]) == key {
            assert(order[order.len() - 1] == order.last());
        } else {
            lemma_one_of(subs, head, key);
            let a = choose|a: int| 0 <= a < head.len() && lang_key(subs[#[trigger] head[a]]) == key;
            assert(order[a] == head[a]);
        }
    }
}

/// What the shortlist of a beginning holds, the shortlist of the whole holds.
proof fn lemma_shortlist_grows(subs: Seq<SubtitleInfo>, order: Seq<int>, k: int)
    requires
        0 <= k <= order.len(),
    ensures
        forall|x: int|
            shortlist(subs, order.take(k)).contains(x) ==> #[trigger] shortlist(
                subs,
                order,
            ).contains(x),
    decreases order.len() - k,
{
    if k == order.len() {
        assert(order.take(k) =~= order);
    } else {
        lemma_shortlist_grows(subs, order, k + 1);
        assert(order.take(k + 1).drop_last() =~= order.take(k));
        let small = shortlist(subs, order.take(k));
        let large = shortlist(subs, order.take(k + 1));
        assert forall|x: int| small.contains(x) implies large.contains(x) by {
            let m = choose|m: int| 0 <= m < small.len() && small[m] == x;
            assert(large[m] == x);
        }
    }
}

/// The subtitles at some positions.
pub open spec fn picked(subs: Seq<SubtitleInfo>, positions: Seq<int>) -> Seq<SubtitleInfo> {
    positions.map_values(|i: int| subs[i])
}

/// The positions 0, 1 and so on up to `n`.
pub open spec fn first_positions(n: nat) -> Seq<int> {
    Seq::new(n, |k: int| k)
}

proof fn lemma_all_wanted(subs: Seq<SubtitleInfo>, langs: Seq<String>, n: int)
    requires
        0 <= n <= subs.len(),
        forall|k: int| 0 <= k < n ==> is_wanted(#[trigger] subs[k], langs),
    ensures
        wanted_positions(subs, langs, n) == first_positions(n as nat),
    decreases n,
{
    if n > 0 {
        lemma_all_wanted(subs, langs, n - 1);
        assert(is_wanted(subs[n - 1], langs));
        assert(first_positions((n - 1) as nat).push(n - 1) =~= first_positions(n as nat));
    } else {
        assert(first_positions(0) =~= Seq::<int>::empty());
    }
}

/// Languages count the same among picked subtitles as where they were picked.
proof fn lemma_picked_count(
    subs: Seq<SubtitleInfo>,
    positions: Seq<int>,
    n: int,
    key: Seq<char>,
)
    requires
        0 <= n <= positions.len(),
    ensures
        count_lang(picked(subs, positions), first_positions(n as nat), key) == count_lang(
            subs,
            positions.take(n),
            key,
        ),
        count_lang(subs, positions.take(n), key) <= count_lang(subs, positions, key),
    decreases positions.len(), n,
{
    let few = first_positions(n as nat);
    if n > 0 {
        lemma_picked_count(subs, positions, n - 1, key);
        assert(few.drop_last() =~= first_positions((n - 1) as nat));
        assert(positions.take(n).drop_last() =~= positions.take(n - 1));
        assert(few.last() == n - 1);
        assert(positions.take(n).last() == positions[n - 1]);
        assert(picked(subs, positions)[n - 1] == subs[positions[n - 1]]);
    }
    if n < positions.len() {
        lemma_picked_count(subs, positions.drop_last(), n, key);
        assert(positions.drop_last().take(n) =~= positions.take(n));
    } else {
        assert(positions.take(n) =~= positions);
    }
}

proof fn lemma_all_shortlisted(subs: Seq<SubtitleInfo>, positions: Seq<int>, n: int)
    requires
        0 <= n <= positions.len(),
        forall|key: Seq<char>| #[trigger] count_lang(subs, positions, key) <= 2,
    ensures
        shortlist(picked(subs, positions), first_positions(n as nat)) == first_positions(n as nat),
    decreases n,
{
    let again = picked(subs, positions);
    let few = first_positions(n as nat);
    if n > 0 {
        let key = lang_key(again[n - 1]);
        lemma_all_shortlisted(subs, positions, n - 1);
        assert(few.drop_last() =~= first_positions((n - 1) as nat));
        assert(few.last() == n - 1);
        lemma_picked_count(subs, positions, n, key);
        assert(count_lang(subs, positions, key) <= 2);
        assert(count_lang(again, few, key) == count_lang(again, few.drop_last(), key) + 1);
        assert(few.drop_last().push(n - 1) =~= few);
    } else {
        assert(few =~= Seq::<int>::empty());
    }
}

/// Ranking the subtitles that a source gets once more keeps all of them, in their
/// order.
pub proof fn ranking_again_changes_nothing(
    subs: Seq<SubtitleInfo>,
    langs: Seq<String>,
    source_name: Option<String>,
    source_path: Option<String>,
)
    ensures
        ({
            let got = external_positions(subs, langs, source_name, source_path);
            external_positions(picked(subs, got), langs, source_name, source_path)
                == first_positions(got.len())
        }),
{
    let got = external_positions(subs, langs, source_name, source_path);
    let again = picked(subs, got);
    let all = first_positions(got.len());
    let leq = preference(again, langs, source_name, source_path);
    external_subtitles_are_preferred(subs, langs, source_name, source_path);
    assert forall|k: int| 0 <= k < again.len() implies is_wanted(#[trigger] again[k], langs) by {
        assert(is_wanted(subs[got[k]], langs));
    }
    lemma_all_wanted(again, langs, again.len() as int);
    lemma_preference_orders(again, langs, source_name, source_path);
    assert(sorted_by(all, leq)) by {
        assert forall|a: int, b: int| 0 <= a < b < all.len() implies #[trigger] leq(
            all[a],
            all[b],
        ) by {
            assert(goes_before(subs, langs, source_name, source_path, got[a], got[b]));
        }
    }
    all.lemma_sort_by_ensures(leq);
    vstd::seq_lib::lemma_sorted_unique(all, all.sort_by(leq), leq);
    lemma_all_shortlisted(subs, got, got.len() as int);
}

/// Where a subtitle lies is told by its address, its path on this machine, or its
/// path at an addon, and by nothing else.
pub proof fn addresses_tell_where_subtitles_lie(sub: &SubtitleInfo, r: &str)
    requires
        call_ensures(subtitle_path_hint, (sub,), r),
    ensures
        sub.url matches Some(StreamDescriptor::Http { url }) ==> r@ == url@,
        sub.url matches Some(StreamDescriptor::Local(Some(path))) ==> r@ == path@,
        sub.url matches Some(StreamDescriptor::Opendal { addon_id, path }) ==> r@ == path@,
        sub.url is None ==> r@.len() == 0,
        sub.url matches Some(StreamDescriptor::Local(None)) ==> r@.len() == 0,
        sub.url matches Some(StreamDescriptor::Torrent { info_hash, file_idx }) ==> r@.len() == 0,
        sub.url matches Some(StreamDescriptor::Other) ==> r@.len() == 0,
{
}

/// The score of a subtitle is how many different words of its file name, which is
/// what follows the last slash, are words of the name or the path of the source.
pub proof fn scores_count_shared_words(
    sub: &SubtitleInfo,
    source_name: &Option<String>,
    source_path: &Option<String>,
    r: i32,
    folder: Seq<char>,
    file: Seq<char>,
    shared: Set<Seq<char>>,
)
    requires
        call_ensures(score_sub_url, (sub, source_name, source_path), r),
        !file.contains('/'),
        path_hint(*sub) == file || path_hint(*sub) == folder + seq!['/'] + file,
        forall|t: Seq<char>|
            shared.contains(t) <==> #[trigger] tokens(file).contains(t) && {
                ||| source_name matches Some(name) && tokens(name@).contains(t)
                ||| source_path matches Some(path) && tokens(path@).contains(t)
            },
    ensures
        r == shared.len() as i32,
{
    let hint = path_hint(*sub);
    crate::text::last_position_is_last(hint, '/');
    lemma_no_words();
    if hint == file {
        if let Some(i) = crate::text::last_position(hint, '/') {
            assert(file[i] == '/');
        }
    } else {
        let n = folder.len() as int;
        assert(hint[n] == '/');
        assert forall|j: int| n < j < hint.len() implies hint[j] != '/' by {
            assert(hint[j] == file[j - n - 1]);
        }
        assert(hint.skip(n + 1) =~= file);
    }
    assert(after_last(hint, '/') == file);
    let both = tokens(text_or_empty(*source_name)).union(tokens(text_or_empty(*source_path)));
    assert forall|t: Seq<char>| shared.contains(t) <==> tokens(file).intersect(both).contains(
        t,
    ) by {
        assert(tokens(file).contains(t) || !tokens(file).contains(t));
    }
    assert(tokens(file).intersect(both) =~= shared);
}

proof fn lemma_no_words()
    ensures
        tokens(Seq::empty()) == Set::<Seq<char>>::empty(),
{
    assert(tokens(Seq::empty()) =~= Set::<Seq<char>>::empty());
}

/// A subtitle is in a wanted language exactly if it names one whose two-letter code
/// is the preference, white space around that and case aside.
pub proof fn languages_are_wanted_by_their_code(sub: SubtitleInfo, wanted: String)
    ensures
        sub.lang is None ==> !speaks(sub, wanted),
        sub.lang matches Some(lang) ==> (speaks(sub, wanted) <==> two_letter(lang@) is Some
            && ascii_lowered(two_letter(lang@)->0) == ascii_lowered(trimmed(wanted@))),
{
}

/// The rank of a subtitle is the first preference that it meets. One that meets none
/// comes behind all that meet one.
pub proof fn ranks_are_first_preferences(sub: SubtitleInfo, langs: Seq<String>, k: int)
    requires
        0 <= k < langs.len() <= usize::MAX,
    ensures
        speaks(sub, langs[k]) && (forall|j: int| 0 <= j < k ==> !speaks(sub, #[trigger] langs[j]))
            ==> lang_rank(sub, langs) == k,
        (forall|j: int| 0 <= j < langs.len() ==> !speaks(sub, #[trigger] langs[j])) ==> lang_rank(
            sub,
            langs,
        ) >= langs.len(),
        speaks(sub, langs[k]) ==> lang_rank(sub, langs) <= k,
{
    lemma_first_wanted(sub, langs, 0);
}

/// Without preferences every subtitle is wanted, and all rank the same.
pub proof fn without_preferences_all_are_wanted(sub: SubtitleInfo, other: SubtitleInfo)
    ensures
        is_wanted(sub, Seq::empty()),
        lang_rank(sub, Seq::empty()) == lang_rank(other, Seq::empty()),
{
}

/// Subtitles without a language count as one language of their own.
pub proof fn unknown_languages_count_as_one(sub: SubtitleInfo)
    ensures
        sub.lang is None ==> lang_key(sub) == "und"@,
        sub.lang matches Some(lang) ==> lang_key(sub) == lang@,
{
}

proof fn lemma_count_grows(subs: Seq<SubtitleInfo>, order: Seq<int>, k: int)
    requires
        0 <= k < order.len(),
    ensures
        count_lang(subs, order, lang_key(subs[order[k]])) >= count_lang(
            subs,
            order.take(k),
            lang_key(subs[order[k]]),
        ) + 1,
    decreases order.len(),
{
    let head = order.drop_last();
    if k == order.len() - 1 {
        assert(order.take(k) =~= head);
    } else {
        lemma_count_grows(subs, head, k);
        assert(head.take(k) =~= order.take(k));
    }
}

/// A source gets no three subtitles of one language.
pub proof fn no_three_of_a_language(
    subs: Seq<SubtitleInfo>,
    langs: Seq<String>,
    source_name: Option<String>,
    source_path: Option<String>,
    a: int,
    b: int,
    c: int,
)
    requires
        0 <= a < b < c < external_positions(subs, langs, source_name, source_path).len(),
    ensures
        ({
            let got = external_positions(subs, langs, source_name, source_path);
            !(lang_key(subs[got[a]]) == lang_key(subs[got[b]]) && lang_key(subs[got[b]])
                == lang_key(subs[got[c]]))
        }),
{
    let got = external_positions(subs, langs, source_name, source_path);
    external_subtitles_are_preferred(subs, langs, source_name, source_path);
    if lang_key(subs[got[a]]) == lang_key(subs[got[b]]) && lang_key(subs[got[b]]) == lang_key(
        subs[got[c]],
    ) {
        lemma_count_grows(subs, got, c);
        lemma_count_grows(subs, got.take(c), b);
        assert(got.take(c).take(b) =~= got.take(b));
        lemma_count_grows(subs, got.take(b), a);
        assert(count_lang(subs, got, lang_key(subs[got[a]])) >= 3);
    }
}

/// The order of the subtitles that a source gets: those of an earlier preference
/// come first, among those the ones that fit the source better, and among equals
/// the ones that were offered first.
pub proof fn better_subtitles_come_first(
    subs: &Vec<SubtitleInfo>,
    langs: &Vec<String>,
    source_name: &Option<String>,
    source_path: &Option<String>,
    r: Vec<usize>,
    a: int,
    b: int,
)
    requires
        call_ensures(external_order, (subs, langs, source_name, source_path), r),
        0 <= a < b < r@.len(),
    ensures
        r@[a] < subs@.len() && r@[b] < subs@.len() && r@[a] != r@[b],
        forall|p: int|
            0 <= p < langs@.len() && speaks(subs@[r@[b] as int], #[trigger] langs@[p])
                ==> exists|q: int|
                0 <= q <= p && speaks(subs@[r@[a] as int], #[trigger] langs@[q]),
        lang_rank(subs@[r@[a] as int], langs@) == lang_rank(subs@[r@[b] as int], langs@) ==> score(
            subs@[r@[a] as int],
            *source_name,
            *source_path,
        ) >= score(subs@[r@[b] as int], *source_name, *source_path),
        lang_rank(subs@[r@[a] as int], langs@) == lang_rank(subs@[r@[b] as int], langs@) && score(
            subs@[r@[a] as int],
            *source_name,
            *source_path,
        ) == score(subs@[r@[b] as int], *source_name, *source_path) ==> r@[a] < r@[b],
{
    let got = external_positions(subs@, langs@, *source_name, *source_path);
    external_subtitles_are_preferred(subs@, langs@, *source_name, *source_path);
    assert(ints(r@)[a] == got[a] && ints(r@)[b] == got[b]);
    assert(got[a] == r@[a] && got[b] == r@[b]);
    let x = subs@[r@[a] as int];
    let y = subs@[r@[b] as int];
    lemma_first_wanted(x, langs@, 0);
    lemma_first_wanted(y, langs@, 0);
    assert(is_wanted(subs@[got[a]], langs@));
    assert forall|p: int| 0 <= p < langs@.len() && speaks(y, #[trigger] langs@[p]) implies exists|
        q: int,
    |
        0 <= q <= p && speaks(x, #[trigger] langs@[q]) by {
        let f = first_wanted(y, langs@, 0)->0;
        assert(f <= p);
        let e = first_wanted(x, langs@, 0)->0;
        assert(speaks(x, langs@[e]));
    }
}

/// A subtitle is given to a source exactly if it is wanted and no two others of its
/// language go before it.
pub proof fn wanted_subtitles_are_given(
    subs: &Vec<SubtitleInfo>,
    langs: &Vec<String>,
    source_name: &Option<String>,
    source_path: &Option<String>,
    r: Vec<usize>,
    i: usize,
)
    requires
        call_ensures(external_order, (subs, langs, source_name, source_path), r),
        i < subs@.len(),
    ensures
        r@.contains(i) ==> langs@.len() == 0 || exists|k: int|
            0 <= k < langs@.len() && speaks(subs@[i as int], #[trigger] langs@[k]),
        !r@.contains(i) && (langs@.len() == 0 || exists|k: int|
            0 <= k < langs@.len() && speaks(subs@[i as int], #[trigger] langs@[k])) ==> exists|
            a: usize,
            b: usize,
        |
            #![trigger r@.contains(a), r@.contains(b)]
            {
                &&& a != b
                &&& r@.contains(a)
                &&& r@.contains(b)
                &&& lang_key(subs@[a as int]) == lang_key(subs@[i as int])
                &&& lang_key(subs@[b as int]) == lang_key(subs@[i as int])
                &&& goes_before(subs@, langs@, *source_name, *source_path, a as int, i as int)
                &&& goes_before(subs@, langs@, *source_name, *source_path, b as int, i as int)
            },
{
    let got = external_positions(subs@, langs@, *source_name, *source_path);
    external_subtitles_are_preferred(subs@, langs@, *source_name, *source_path);
    assert(ints(r@) == got);
    assert forall|x: usize| #[trigger] r@.contains(x) <==> got.contains(x as int) by {
        if r@.contains(x) {
            let k = choose|k: int| 0 <= k < r@.len() && r@[k] == x;
            assert(got[k] == x as int);
        }
        if got.contains(x as int) {
            let k = choose|k: int| 0 <= k < got.len() && got[k] == x as int;
            assert(ints(r@)[k] == r@[k] as int);
        }
    }
    if r@.contains(i) {
        let k = choose|k: int| 0 <= k < got.len() && got[k] == i as int;
        assert(is_wanted(subs@[got[k]], langs@));
    } else if is_wanted(subs@[i as int], langs@) {
        left_out_subtitles_have_two_betters(
            subs@,
            langs@,
            *source_name,
            *source_path,
            i as int,
        );
        let (a, b) = choose|a: int, b: int|
            #![trigger subs@[a], subs@[b]]
            {
                &&& a != b
                &&& got.contains(a)
                &&& got.contains(b)
                &&& lang_key(subs@[a]) == lang_key(subs@[i as int])
                &&& lang_key(subs@[b]) == lang_key(subs@[i as int])
                &&& goes_before(subs@, langs@, *source_name, *source_path, a, i as int)
                &&& goes_before(subs@, langs@, *source_name, *source_path, b, i as int)
            };
        let ka = choose|k: int| 0 <= k < got.len() && got[k] == a;
        let kb = choose|k: int| 0 <= k < got.len() && got[k] == b;
        assert(ints(r@)[ka] == a && ints(r@)[kb] == b);
        assert(r@.contains(r@[ka]) && r@.contains(r@[kb]));
    }
}

/// One subtitle goes before another by the rank of its language, then by its score,
/// and then by its place.
pub proof fn subtitles_go_by_language_then_score(
    subs: Seq<SubtitleInfo>,
    langs: Seq<String>,
    source_name: Option<String>,
    source_path: Option<String>,
    i: int,
    j: int,
)
    requires
        i != j,
    ensures
        goes_before(subs, langs, source_name, source_path, i, j) <==> !goes_before(
            subs,
            langs,
            source_name,
            source_path,
            j,
            i,
        ),
        lang_rank(subs[i], langs) < lang_rank(subs[j], langs) ==> goes_before(
            subs,
            langs,
            source_name,
            source_path,
            i,
            j,
        ),
        lang_rank(subs[i], langs) == lang_rank(subs[j], langs) && score(
            subs[i],
            source_name,
            source_path,
        ) > score(subs[j], source_name, source_path) ==> goes_before(
            subs,
            langs,
            source_name,
            source_path,
            i,
            j,
        ),
        lang_rank(subs[i], langs) == lang_rank(subs[j], langs) && score(
            subs[i],
            source_name,
            source_path,
        ) == score(subs[j], source_name, source_path) && i < j ==> goes_before(
            subs,
            langs,
            source_name,
            source_path,
            i,
            j,
        ),
{
}

/// The subtitles that come out are those at the places of the order.
pub proof fn subtitles_come_in_their_order<'a>(
    subs: &'a Vec<SubtitleInfo>,
    langs: &Vec<String>,
    source_name: &Option<String>,
    source_path: &Option<String>,
    order: Vec<usize>,
    r: Vec<&'a SubtitleInfo>,
)
    requires
        call_ensures(external_order, (subs, langs, source_name, source_path), order),
        call_ensures(scored_external_subtitles, (subs, langs, source_name, source_path), r),
    ensures
        r@.len() == order@.len(),
        forall|k: int| 0 <= k < r@.len() ==> *(#[trigger] r@[k]) == subs@[order@[k] as int],
{
    let got = external_positions(subs@, langs@, *source_name, *source_path);
    assert(ints(order@) == got);
    assert forall|k: int| 0 <= k < r@.len() implies *(#[trigger] r@[k])
        == subs@[order@[k] as int] by {
        assert(ints(order@)[k] == order@[k] as int);
        assert(r@[k] == &subs@[got[k]]);
    }
}

} // verus!
