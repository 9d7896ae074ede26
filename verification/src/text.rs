//! Text as sequences of characters: the reading and rewriting that the rest of
//! the library is built on.

use vstd::prelude::*;

verus! {

/// `String::push` appends one character.
pub assume_specification[ String::push ](s: &mut String, c: char)
    ensures
        final(s)@ == old(s)@.push(c),
;

/// The characters of a text, in order.
pub fn chars_of(s: &str) -> (v: Vec<char>)
    ensures
        v@ == s@,
{
    let mut v: Vec<char> = Vec::new();
    for c in it: s.chars()
        invariant
            v@ == it.seq().take(it.index() as int),
            it.seq() == s@,
    {
        v.push(c);
        assert(it.seq().take(it.index() as int + 1) =~= it.seq().take(it.index() as int).push(c));
    }
    assert(s@.take(s@.len() as int) =~= s@);
    v
}

/// The text made of `chars`.
pub fn string_of(chars: &Vec<char>) -> (s: String)
    ensures
        s@ == chars@,
{
    let mut s: String = String::new();
    let mut i: usize = 0;
    while i < chars.len()
        invariant
            i <= chars.len(),
            s@ == chars@.take(i as int),
        decreases chars.len() - i,
    {
        s.push(chars[i]);
        i += 1;
        assert(chars@.take(i as int) =~= chars@.take(i - 1).push(chars@[i - 1]));
    }
    assert(chars@.take(i as int) =~= chars@);
    s
}

/// Whether two texts hold the same characters.
pub fn same_text(a: &str, b: &str) -> (r: bool)
    ensures
        r == (a@ == b@),
{
    let x: Vec<char> = chars_of(a);
    let y: Vec<char> = chars_of(b);
    if x.len() != y.len() {
        return false;
    }
    let mut i: usize = 0;
    while i < x.len()
        invariant
            i <= x.len(),
            x.len() == y.len(),
            x@ == a@,
            y@ == b@,
            forall|k: int| 0 <= k < i ==> x@[k] == y@[k],
        decreases x.len() - i,
    {
        if x[i] != y[i] {
            return false;
        }
        i += 1;
    }
    assert(a@ =~= b@);
    true
}

/// The views of the texts in a vector.
pub open spec fn texts(v: Seq<String>) -> Seq<Seq<char>> {
    v.map_values(|s: String| s@)
}

/// Appends a text to a vector of texts.
pub fn push_text(v: &mut Vec<String>, s: &str)
    ensures
        texts(final(v)@) == texts(old(v)@).push(s@),
{
    let ghost before = v@;
    v.push(s.to_owned());
    assert(texts(v@) =~= texts(before).push(s@));
}

// ---------------------------------------------------------------------------
// White space
// ---------------------------------------------------------------------------

/// The characters with the Unicode property White_Space.
pub open spec fn is_white_space(c: char) -> bool {
    let n = c as u32;
    ||| 0x9 <= n <= 0xd
    ||| n == 0x20
    ||| n == 0x85
    ||| n == 0xa0
    ||| n == 0x1680
    ||| 0x2000 <= n <= 0x200a
    ||| n == 0x2028
    ||| n == 0x2029
    ||| n == 0x202f
    ||| n == 0x205f
    ||| n == 0x3000
}

/// A text of white space alone, the empty text included.
pub open spec fn is_blank(s: Seq<char>) -> bool {
    forall|i: int| 0 <= i < s.len() ==> is_white_space(#[trigger] s[i])
}

/// `s` without the white space at its start.
pub open spec fn trim_start(s: Seq<char>) -> Seq<char>
    decreases s.len(),
{
    if s.len() > 0 && is_white_space(s[0]) {
        trim_start(s.skip(1))
    } else {
        s
    }
}

/// `s` without the white space at its end.
pub open spec fn trim_end(s: Seq<char>) -> Seq<char>
    decreases s.len(),
{
    if s.len() > 0 && is_white_space(s.last()) {
        trim_end(s.drop_last())
    } else {
        s
    }
}

/// `s` without the white space at either end.
pub open spec fn trimmed(s: Seq<char>) -> Seq<char> {
    trim_end(trim_start(s))
}

fn white_space(c: char) -> (r: bool)
    ensures
        r == is_white_space(c),
{
    let n: u32 = c as u32;
    (0x9 <= n && n <= 0xd) || n == 0x20 || n == 0x85 || n == 0xa0 || n == 0x1680 || (0x2000 <= n
        && n <= 0x200a) || n == 0x2028 || n == 0x2029 || n == 0x202f || n == 0x205f || n == 0x3000
}

/// Whether a text holds white space alone.
pub fn blank(s: &str) -> (r: bool)
    ensures
        r == is_blank(s@),
{
    let v: Vec<char> = chars_of(s);
    let mut i: usize = 0;
    while i < v.len()
        invariant
            i <= v.len(),
            v@ == s@,
            forall|k: int| 0 <= k < i ==> is_white_space(#[trigger] v@[k]),
        decreases v.len() - i,
    {
        if !white_space(v[i]) {
            assert(!is_white_space(s@[i as int]));
            return false;
        }
        i += 1;
    }
    true
}

/// Trims white space off both ends.
pub fn trim(s: &str) -> (r: String)
    ensures
        r@ == trimmed(s@),
{
    let v: Vec<char> = chars_of(s);
    let mut lo: usize = 0;
    assert(s@.skip(0) =~= s@);
    while lo < v.len() && white_space(v[lo])
        invariant
            lo <= v.len(),
            v@ == s@,
            trim_start(s@) == trim_start(s@.skip(lo as int)),
        decreases v.len() - lo,
    {
        assert(s@.skip(lo as int).skip(1) =~= s@.skip(lo as int + 1));
        assert(s@.skip(lo as int)[0] == v@[lo as int]);
        lo += 1;
    }
    assert(trim_start(s@) == s@.skip(lo as int)) by {
        if lo < v.len() {
            assert(s@.skip(lo as int)[0] == v@[lo as int]);
        }
    }
    let mut hi: usize = v.len();
    while hi > lo && white_space(v[hi - 1])
        invariant
            lo <= hi <= v.len(),
            v@ == s@,
            trim_end(s@.skip(lo as int)) == trim_end(s@.subrange(lo as int, hi as int)),
        decreases hi,
    {
        assert(s@.subrange(lo as int, hi as int).drop_last() =~= s@.subrange(
            lo as int,
            hi as int - 1,
        ));
        assert(s@.subrange(lo as int, hi as int).last() == v@[hi - 1]);
        hi -= 1;
    }
    assert(trim_end(s@.subrange(lo as int, hi as int)) == s@.subrange(lo as int, hi as int)) by {
        if hi > lo {
            assert(s@.subrange(lo as int, hi as int).last() == v@[hi - 1]);
        }
    }
    let part: Vec<char> = part_of(&v, lo, hi);
    string_of(&part)
}

/// The characters from `lo` up to `hi`.
pub fn part_of(v: &Vec<char>, lo: usize, hi: usize) -> (r: Vec<char>)
    requires
        lo <= hi <= v.len(),
    ensures
        r@ == v@.subrange(lo as int, hi as int),
{
    let mut r: Vec<char> = Vec::new();
    let mut i: usize = lo;
    while i < hi
        invariant
            lo <= i <= hi <= v.len(),
            r@ == v@.subrange(lo as int, i as int),
        decreases hi - i,
    {
        r.push(v[i]);
        i += 1;
        assert(v@.subrange(lo as int, i as int) =~= v@.subrange(lo as int, i - 1).push(v@[i - 1]));
    }
    r
}

/// A text trimmed to nothing is a text of white space alone.
pub proof fn blank_texts_trim_to_nothing(s: Seq<char>)
    ensures
        is_blank(s) <==> trimmed(s).len() == 0,
{
    lemma_trim_start(s);
    lemma_trim_end(trim_start(s));
    let t = trim_start(s);
    if is_blank(s) {
        if t.len() > 0 {
            assert(t[0] == s[s.len() - t.len()]);
        }
    } else {
        let i = choose|i: int| 0 <= i < s.len() && !is_white_space(#[trigger] s[i]);
        if trimmed(s).len() == 0 {
            if i >= s.len() - t.len() {
                assert(t[i - (s.len() - t.len())] == s[i]);
            }
        }
    }
}

/// A text has no white space at either end exactly if trimming keeps it, and
/// trimming twice is trimming once.
pub proof fn trimmed_texts_stay(s: Seq<char>)
    ensures
        trimmed(s) == s <==> s.len() == 0 || (!is_white_space(s[0]) && !is_white_space(s.last())),
        trimmed(trimmed(s)) == trimmed(s),
        forall|i: int| 0 <= i < trimmed(s).len() ==> s.contains(#[trigger] trimmed(s)[i]),
{
    let t = trim_start(s);
    let r = trimmed(s);
    lemma_trim_start(s);
    lemma_trim_end(t);
    if r.len() > 0 {
        assert(r[0] == t[0]);
    }
    assert forall|i: int| 0 <= i < r.len() implies s.contains(#[trigger] r[i]) by {
        assert(r[i] == s[i + (s.len() - t.len())]);
    }
}

proof fn lemma_trim_start(s: Seq<char>)
    ensures
        trim_start(s).len() <= s.len(),
        trim_start(s) == s.skip(s.len() - trim_start(s).len()),
        forall|i: int| 0 <= i < s.len() - trim_start(s).len() ==> is_white_space(#[trigger] s[i]),
        trim_start(s).len() > 0 ==> !is_white_space(trim_start(s)[0]),
    decreases s.len(),
{
    if s.len() > 0 && is_white_space(s[0]) {
        let r = s.skip(1);
        lemma_trim_start(r);
        let n = s.len() - trim_start(s).len();
        assert(s.skip(n) =~= r.skip(n - 1));
        assert forall|i: int| 0 <= i < n implies is_white_space(#[trigger] s[i]) by {
            if i > 0 {
                assert(r[i - 1] == s[i]);
            }
        }
    } else {
        assert(s.skip(0) =~= s);
    }
}

proof fn lemma_trim_end(s: Seq<char>)
    ensures
        trim_end(s).len() <= s.len(),
        trim_end(s) == s.take(trim_end(s).len() as int),
        forall|i: int| trim_end(s).len() <= i < s.len() ==> is_white_space(#[trigger] s[i]),
        trim_end(s).len() > 0 ==> !is_white_space(trim_end(s).last()),
    decreases s.len(),
{
    if s.len() > 0 && is_white_space(s.last()) {
        let r = s.drop_last();
        lemma_trim_end(r);
        let n = trim_end(s).len() as int;
        assert(s.take(n) =~= r.take(n));
        assert forall|i: int| n <= i < s.len() implies is_white_space(#[trigger] s[i]) by {
            if i < s.len() - 1 {
                assert(r[i] == s[i]);
            }
        }
    } else {
        assert(s.take(s.len() as int) =~= s);
    }
}

// ---------------------------------------------------------------------------
// Searching
// ---------------------------------------------------------------------------

/// `p` stands in `s` from position `i` on.
pub open spec fn occurs_at(s: Seq<char>, p: Seq<char>, i: int) -> bool {
    &&& 0 <= i
    &&& i + p.len() <= s.len()
    &&& s.subrange(i, i + p.len()) == p
}

/// `p` stands somewhere in `s`.
pub open spec fn has_part(s: Seq<char>, p: Seq<char>) -> bool {
    exists|i: int| occurs_at(s, p, i)
}

/// `s` begins with `p`.
pub open spec fn begins_with(s: Seq<char>, p: Seq<char>) -> bool {
    occurs_at(s, p, 0)
}

/// `s` ends with `p`.
pub open spec fn finishes_with(s: Seq<char>, p: Seq<char>) -> bool {
    occurs_at(s, p, s.len() - p.len())
}

/// The last position of `c` in `s`.
pub open spec fn last_position(s: Seq<char>, c: char) -> Option<int>
    decreases s.len(),
{
    if s.len() == 0 {
        None
    } else if s.last() == c {
        Some(s.len() - 1)
    } else {
        last_position(s.drop_last(), c)
    }
}

/// What follows the last `c` in `s`: all of `s` where it holds no `c`.
pub open spec fn after_last(s: Seq<char>, c: char) -> Seq<char> {
    match last_position(s, c) {
        Some(i) => s.skip(i + 1),
        None => s,
    }
}

/// What precedes the last `c` in `s`: all of `s` where it holds no `c`.
pub open spec fn before_last(s: Seq<char>, c: char) -> Seq<char> {
    match last_position(s, c) {
        Some(i) => s.take(i),
        None => s,
    }
}

/// The last position of `c` in `s` is the one after which no `c` stands.
pub proof fn last_position_is_last(s: Seq<char>, c: char)
    ensures
        match last_position(s, c) {
            Some(i) => 0 <= i < s.len() && s[i] == c && (forall|j: int| i < j < s.len() ==> s[j] != c),
            None => forall|j: int| 0 <= j < s.len() ==> s[j] != c,
        },
    decreases s.len(),
{
    if s.len() > 0 && s.last() != c {
        let r = s.drop_last();
        last_position_is_last(r, c);
        assert forall|j: int| 0 <= j < s.len() - 1 implies s[j] == r[j] by {}
    }
}

/// Whether `p` stands in `s` from `i` on.
pub fn stands_at(s: &Vec<char>, p: &Vec<char>, i: usize) -> (r: bool)
    ensures
        r == occurs_at(s@, p@, i as int),
{
    if p.len() > s.len() || i > s.len() - p.len() {
        return false;
    }
    let mut k: usize = 0;
    while k < p.len()
        invariant
            k <= p.len(),
            i + p.len() <= s.len(),
            forall|j: int| 0 <= j < k ==> s@[i + j] == p@[j],
        decreases p.len() - k,
    {
        if s[i + k] != p[k] {
            assert(s@.subrange(i as int, i + p@.len())[k as int] != p@[k as int]);
            return false;
        }
        k += 1;
    }
    assert(s@.subrange(i as int, i + p@.len()) =~= p@);
    true
}

/// Whether `p` stands somewhere in `s`.
pub fn contains(s: &str, p: &str) -> (r: bool)
    ensures
        r == has_part(s@, p@),
{
    let sv: Vec<char> = chars_of(s);
    let pv: Vec<char> = chars_of(p);
    let mut i: usize = 0;
    loop
        invariant
            i <= sv.len(),
            sv@ == s@,
            pv@ == p@,
            forall|j: int| 0 <= j < i ==> !occurs_at(s@, p@, j),
        decreases sv.len() - i,
    {
        if stands_at(&sv, &pv, i) {
            return true;
        }
        if i == sv.len() {
            return false;
        }
        i += 1;
    }
}

/// Whether `s` begins with `p`.
pub fn starts_with(s: &str, p: &str) -> (r: bool)
    ensures
        r == begins_with(s@, p@),
{
    let sv: Vec<char> = chars_of(s);
    let pv: Vec<char> = chars_of(p);
    stands_at(&sv, &pv, 0)
}

/// Whether `s` ends with `p`.
pub fn ends_with(s: &str, p: &str) -> (r: bool)
    ensures
        r == finishes_with(s@, p@),
{
    let sv: Vec<char> = chars_of(s);
    let pv: Vec<char> = chars_of(p);
    if pv.len() > sv.len() {
        return false;
    }
    stands_at(&sv, &pv, sv.len() - pv.len())
}

/// The last position of `c` in `v`.
pub fn find_last(v: &Vec<char>, c: char) -> (r: Option<usize>)
    ensures
        match r {
            Some(i) => last_position(v@, c) == Some(i as int) && i < v.len(),
            None => last_position(v@, c) is None,
        },
{
    let mut i: usize = v.len();
    assert(v@.take(i as int) =~= v@);
    while i > 0
        invariant
            i <= v.len(),
            last_position(v@, c) == last_position(v@.take(i as int), c),
        decreases i,
    {
        assert(v@.take(i as int).last() == v@[i - 1]);
        assert(v@.take(i as int).drop_last() =~= v@.take(i - 1));
        i -= 1;
        if v[i] == c {
            return Some(i);
        }
    }
    None
}

/// What follows the last `c` in `s`.
pub fn tail_after(s: &str, c: char) -> (r: String)
    ensures
        r@ == after_last(s@, c),
{
    let v: Vec<char> = chars_of(s);
    match find_last(&v, c) {
        Some(i) => {
            let part: Vec<char> = part_of(&v, i + 1, v.len());
            string_of(&part)
        },
        None => string_of(&v),
    }
}

/// What precedes the last `c` in `s`.
pub fn head_before(s: &str, c: char) -> (r: String)
    ensures
        r@ == before_last(s@, c),
{
    let v: Vec<char> = chars_of(s);
    match find_last(&v, c) {
        Some(i) => {
            let part: Vec<char> = part_of(&v, 0, i);
            string_of(&part)
        },
        None => string_of(&v),
    }
}

// ---------------------------------------------------------------------------
// ASCII case
// ---------------------------------------------------------------------------

/// `c` with an ASCII capital turned into its small letter.
pub open spec fn ascii_lower(c: char) -> char {
    if 'A' <= c <= 'Z' {
        (c as u8 + 32) as char
    } else {
        c
    }
}

/// `s` with its ASCII capitals turned into small letters.
pub open spec fn ascii_lowered(s: Seq<char>) -> Seq<char> {
    s.map_values(|c: char| ascii_lower(c))
}

fn lower_char(c: char) -> (r: char)
    ensures
        r == ascii_lower(c),
{
    if 'A' <= c && c <= 'Z' {
        (c as u8 + 32) as char
    } else {
        c
    }
}

/// Turns ASCII capitals into small letters.
pub fn to_ascii_lower(s: &str) -> (r: String)
    ensures
        r@ == ascii_lowered(s@),
{
    let v: Vec<char> = chars_of(s);
    let mut r: String = String::new();
    let mut i: usize = 0;
    while i < v.len()
        invariant
            i <= v.len(),
            v@ == s@,
            r@ =~= ascii_lowered(s@.take(i as int)),
        decreases v.len() - i,
    {
        r.push(lower_char(v[i]));
        i += 1;
        assert(s@.take(i as int).drop_last() =~= s@.take(i - 1));
    }
    assert(s@.take(i as int) =~= s@);
    r
}

/// Whether two texts are the same but for the case of ASCII letters.
pub fn same_ignoring_ascii_case(a: &str, b: &str) -> (r: bool)
    ensures
        r == (ascii_lowered(a@) == ascii_lowered(b@)),
{
    let x: String = to_ascii_lower(a);
    let y: String = to_ascii_lower(b);
    same_text(x.as_str(), y.as_str())
}

// ---------------------------------------------------------------------------
// Laws
// ---------------------------------------------------------------------------

/// White space is the tab, the line breaks and the spaces of Unicode, and nothing
/// else.
pub proof fn white_space_is_breaks_and_spaces(c: char)
    ensures
        is_white_space(c) <==> {
            ||| c == '\t' || c == '\n' || c == '\u{b}' || c == '\u{c}' || c == '\r' || c == ' '
            ||| c == '\u{85}' || c == '\u{a0}' || c == '\u{1680}'
            ||| '\u{2000}' <= c <= '\u{200a}'
            ||| c == '\u{2028}' || c == '\u{2029}' || c == '\u{202f}' || c == '\u{205f}'
            ||| c == '\u{3000}'
        },
{
}

/// Trimming takes white space off both ends, all of it and nothing else.
pub proof fn trimming_takes_outer_space_alone(s: &str, r: String)
    requires
        call_ensures(trim, (s,), r),
    ensures
        r@.len() > 0 ==> !is_white_space(r@[0]) && !is_white_space(r@.last()),
        exists|before: Seq<char>, after: Seq<char>|
            is_blank(before) && is_blank(after) && s@ == #[trigger] (before + r@ + after),
{
    let t = trim_start(s@);
    lemma_trim_start(s@);
    lemma_trim_end(t);
    let before = s@.take(s@.len() - t.len());
    let after = t.skip(r@.len() as int);
    if r@.len() > 0 {
        assert(r@[0] == t[0]);
    }
    assert forall|i: int| 0 <= i < after.len() implies is_white_space(#[trigger] after[i]) by {
        assert(after[i] == t[i + r@.len()]);
    }
    assert(s@ =~= before + r@ + after);
    assert(is_blank(before) && is_blank(after));
}

/// A text is blank exactly if it has no character that is not white space.
pub proof fn blank_texts_hold_white_space_alone(s: &str, r: bool)
    requires
        call_ensures(blank, (s,), r),
    ensures
        r <==> !(exists|i: int| 0 <= i < s@.len() && !is_white_space(#[trigger] s@[i])),
{
}

/// A part stands where its characters do.
pub proof fn parts_stand_where_their_characters_do(s: Seq<char>, p: Seq<char>, i: int)
    ensures
        occurs_at(s, p, i) <==> 0 <= i && i + p.len() <= s.len() && forall|k: int|
            0 <= k < p.len() ==> s[i + k] == #[trigger] p[k],
{
    if 0 <= i && i + p.len() <= s.len() {
        let q = s.subrange(i, i + p.len());
        if q == p {
            assert forall|k: int| 0 <= k < p.len() implies s[i + k] == #[trigger] p[k] by {
                assert(q[k] == p[k]);
            }
        }
        if forall|k: int| 0 <= k < p.len() ==> s[i + k] == #[trigger] p[k] {
            assert(q =~= p);
        }
    }
}

/// What a text is made of is found in it: its beginning, its end and its middle.
pub proof fn made_up_texts_are_taken_apart(a: Seq<char>, p: Seq<char>, b: Seq<char>)
    ensures
        begins_with(p + b, p),
        finishes_with(a + p, p),
        has_part(a + p + b, p),
{
    parts_stand_where_their_characters_do(p + b, p, 0);
    parts_stand_where_their_characters_do(a + p, p, a.len() as int);
    parts_stand_where_their_characters_do(a + p + b, p, a.len() as int);
    assert(occurs_at(a + p + b, p, a.len() as int));
}

/// What is found in a text makes it up.
pub proof fn found_parts_make_up_the_text(s: &str, p: &str, begins: bool, ends: bool, holds: bool)
    requires
        call_ensures(starts_with, (s, p), begins),
        call_ensures(ends_with, (s, p), ends),
        call_ensures(contains, (s, p), holds),
    ensures
        begins <==> p@.len() <= s@.len() && s@ == p@ + s@.skip(p@.len() as int),
        ends <==> p@.len() <= s@.len() && s@ == s@.take(s@.len() - p@.len()) + p@,
        holds <==> exists|i: int|
            0 <= i <= s@.len() - p@.len() && s@ == #[trigger] s@.take(i) + p@ + s@.skip(
                i + p@.len(),
            ),
{
    let n = p@.len() as int;
    if begins {
        assert(s@ =~= s@.subrange(0, n) + s@.skip(n));
    }
    if p@.len() <= s@.len() && s@ == p@ + s@.skip(n) {
        made_up_texts_are_taken_apart(Seq::empty(), p@, s@.skip(n));
    }
    if ends {
        assert(s@ =~= s@.take(s@.len() - n) + s@.subrange(s@.len() - n, s@.len() as int));
    }
    if p@.len() <= s@.len() && s@ == s@.take(s@.len() - n) + p@ {
        made_up_texts_are_taken_apart(s@.take(s@.len() - n), p@, Seq::empty());
    }
    if holds {
        let i = choose|i: int| occurs_at(s@, p@, i);
        assert(s@ =~= s@.take(i) + s@.subrange(i, i + n) + s@.skip(i + n));
    }
    if exists|i: int|
        0 <= i <= s@.len() - p@.len() && s@ == #[trigger] s@.take(i) + p@ + s@.skip(i + p@.len()) {
        let i = choose|i: int|
            0 <= i <= s@.len() - p@.len() && s@ == #[trigger] s@.take(i) + p@ + s@.skip(
                i + p@.len(),
            );
        made_up_texts_are_taken_apart(s@.take(i), p@, s@.skip(i + n));
    }
}

/// A text is cut at the last place of a character: what precedes it, the character
/// and what follows it make up the text, and what follows holds no such character.
/// A text without the character is not cut.
pub proof fn texts_are_cut_once(s: &str, c: char, head: String, tail: String)
    requires
        call_ensures(head_before, (s, c), head),
        call_ensures(tail_after, (s, c), tail),
    ensures
        forall|i: int| 0 <= i < tail@.len() ==> #[trigger] tail@[i] != c,
        s@.contains(c) ==> s@ == head@.push(c) + tail@,
        !s@.contains(c) ==> head@ == s@ && tail@ == s@,
{
    last_position_is_last(s@, c);
    match last_position(s@, c) {
        Some(i) => {
            assert(s@[i] == c);
            assert(s@ =~= s@.take(i).push(c) + s@.skip(i + 1));
        },
        None => {
            if s@.contains(c) {
                let i = choose|i: int| 0 <= i < s@.len() && s@[i] == c;
                assert(s@[i] != c);
            }
        },
    }
}

/// Lowering a text turns each ASCII capital into the letter 32 places behind it,
/// and keeps everything else where it is.
pub proof fn lowering_moves_capitals_alone(s: &str, r: String)
    requires
        call_ensures(to_ascii_lower, (s,), r),
    ensures
        r@.len() == s@.len(),
        forall|i: int|
            0 <= i < s@.len() ==> if 'A' <= s@[i] <= 'Z' {
                #[trigger] r@[i] as u32 == s@[i] as u32 + 32
            } else {
                r@[i] == s@[i]
            },
{
}

proof fn lemma_same_lower(a: char, b: char)
    ensures
        ascii_lower(a) == ascii_lower(b) <==> {
            ||| a == b
            ||| 'A' <= a <= 'Z' && b as u32 == a as u32 + 32
            ||| 'A' <= b <= 'Z' && a as u32 == b as u32 + 32
        },
{
}

/// Two texts are the same but for the case of ASCII letters exactly if they are
/// equally long and differ, place by place, at most in that case.
pub proof fn texts_alike_differ_in_case_alone(a: &str, b: &str, r: bool)
    requires
        call_ensures(same_ignoring_ascii_case, (a, b), r),
    ensures
        r <==> a@.len() == b@.len() && forall|i: int|
            #![trigger a@[i], b@[i]]
            0 <= i < a@.len() ==> {
                ||| a@[i] == b@[i]
                ||| 'A' <= a@[i] <= 'Z' && b@[i] as u32 == a@[i] as u32 + 32
                ||| 'A' <= b@[i] <= 'Z' && a@[i] as u32 == b@[i] as u32 + 32
            },
{
    let x = ascii_lowered(a@);
    let y = ascii_lowered(b@);
    if r {
        assert(x.len() == y.len());
        assert forall|i: int|
            #![trigger a@[i], b@[i]]
            0 <= i < a@.len() implies {
            ||| a@[i] == b@[i]
            ||| 'A' <= a@[i] <= 'Z' && b@[i] as u32 == a@[i] as u32 + 32
            ||| 'A' <= b@[i] <= 'Z' && a@[i] as u32 == b@[i] as u32 + 32
        } by {
            assert(x[i] == ascii_lower(a@[i]));
            assert(y[i] == ascii_lower(b@[i]));
            lemma_same_lower(a@[i], b@[i]);
        }
    }
    if a@.len() == b@.len() && forall|i: int|
        #![trigger a@[i], b@[i]]
        0 <= i < a@.len() ==> {
            ||| a@[i] == b@[i]
            ||| 'A' <= a@[i] <= 'Z' && b@[i] as u32 == a@[i] as u32 + 32
            ||| 'A' <= b@[i] <= 'Z' && a@[i] as u32 == b@[i] as u32 + 32
        } {
        assert forall|i: int| 0 <= i < a@.len() implies x[i] == y[i] by {
            assert(x[i] == ascii_lower(a@[i]));
            assert(y[i] == ascii_lower(b@[i]));
            lemma_same_lower(a@[i], b@[i]);
        }
        assert(x =~= y);
    }
}

/// The views of texts stand in the order of the texts.
pub proof fn views_keep_their_places(v: Seq<String>)
    ensures
        texts(v).len() == v.len(),
        forall|i: int| 0 <= i < v.len() ==> #[trigger] texts(v)[i] == v[i]@,
{
}

} // verus!
