//! Words of a text, and how many two texts share.

use vstd::prelude::*;

use crate::language::byte_len;
use crate::language::lowered;
use crate::language::to_lower;
use crate::text::chars_of;
use crate::text::part_of;
use crate::text::same_text;
use crate::text::string_of;
use crate::text::texts;

verus! {

/// Whether Unicode counts a character among the letters and numbers, as
/// `char::is_alphanumeric` says.
pub uninterp spec fn unicode_alphanumeric(c: char) -> bool;

/// `char::is_alphanumeric`, by the Unicode tables.
#[verifier::external_body]
fn unicode_is_alphanumeric(c: char) -> (r: bool)
    ensures
        r == unicode_alphanumeric(c),
{
    c.is_alphanumeric()
}

/// A character of a word: an ASCII letter or digit, or a character outside ASCII
/// that Unicode counts among the letters and numbers.
pub open spec fn is_word_char(c: char) -> bool {
    if (c as u32) < 128 {
        ('0' <= c <= '9') || ('A' <= c <= 'Z') || ('a' <= c <= 'z')
    } else {
        unicode_alphanumeric(c)
    }
}

fn word_char(c: char) -> (r: bool)
    ensures
        r == is_word_char(c),
{
    if (c as u32) < 128 {
        ('0' <= c && c <= '9') || ('A' <= c && c <= 'Z') || ('a' <= c && c <= 'z')
    } else {
        unicode_is_alphanumeric(c)
    }
}

/// The characters of `s` from `i` up to `j` are a word: word characters alone,
/// with none before or behind.
pub open spec fn is_word_at(s: Seq<char>, i: int, j: int) -> bool {
    &&& 0 <= i < j <= s.len()
    &&& forall|k: int| i <= k < j ==> is_word_char(#[trigger] s[k])
    &&& i == 0 || !is_word_char(s[i - 1])
    &&& j == s.len() || !is_word_char(s[j])
}

/// `t` is the lower case of a word of `s` that ends by `end` and has more than
/// two bytes.
pub open spec fn is_token_by(s: Seq<char>, end: int, t: Seq<char>) -> bool {
    exists|i: int, j: int|
        #![trigger is_word_at(s, i, j)]
        {
            &&& is_word_at(s, i, j)
            &&& j <= end
            &&& byte_len(s.subrange(i, j)) > 2
            &&& t == lowered(s.subrange(i, j))
        }
}

/// The words of `s` of more than two bytes, in lower case.
pub open spec fn tokens(s: Seq<char>) -> Set<Seq<char>> {
    Set::new(|t: Seq<char>| is_token_by(s, s.len() as int, t))
}

/// Whether a text is among others.
pub fn has_text(v: &Vec<String>, t: &str) -> (r: bool)
    ensures
        r == texts(v@).contains(t@),
{
    let mut i: usize = 0;
    while i < v.len()
        invariant
            i <= v.len(),
            forall|k: int| 0 <= k < i ==> texts(v@)[k] != t@,
        decreases v.len() - i,
    {
        assert(texts(v@)[i as int] == v@[i as int]@);
        if same_text(v[i].as_str(), t) {
            return true;
        }
        i += 1;
    }
    false
}

/// The words of `s` of more than two bytes, in lower case, each once.
pub fn tokens_of(s: &str) -> (r: Vec<String>)
    ensures
        texts(r@).to_set() == tokens(s@),
        texts(r@).no_duplicates(),
{
    let v: Vec<char> = chars_of(s);
    let mut out: Vec<String> = Vec::new();
    let mut i: usize = 0;
    assert forall|t: Seq<char>| !is_token_by(s@, 0, t) by {}
    while i < v.len()
        invariant
            i <= v.len(),
            v@ == s@,
            i == 0 || i == v.len() || !is_word_char(v@[i - 1]) || !is_word_char(v@[i as int]),
            forall|t: Seq<char>| texts(out@).contains(t) <==> is_token_by(s@, i as int, t),
            texts(out@).no_duplicates(),
        decreases v.len() - i,
    {
        if !word_char(v[i]) {
            proof {
                assert forall|t: Seq<char>|
                    is_token_by(s@, i as int + 1, t) <==> is_token_by(s@, i as int, t) by {
                    if is_token_by(s@, i as int + 1, t) {
                        let (a, b) = choose|a: int, b: int|
                            #![trigger is_word_at(s@, a, b)]
                            {
                                &&& is_word_at(s@, a, b)
                                &&& b <= i + 1
                                &&& byte_len(s@.subrange(a, b)) > 2
                                &&& t == lowered(s@.subrange(a, b))
                            };
                        if b == i + 1 {
                            assert(is_word_char(s@[b - 1]));
                        }
                    }
                }
            }
            i += 1;
        } else {
            let mut j: usize = i + 1;
            while j < v.len() && word_char(v[j])
                invariant
                    i < j <= v.len(),
                    forall|k: int| i <= k < j ==> is_word_char(#[trigger] v@[k]),
                decreases v.len() - j,
            {
                j += 1;
            }
            assert(is_word_at(s@, i as int, j as int));
            let part: Vec<char> = part_of(&v, i, j);
            let word: String = string_of(&part);
            let ghost w = s@.subrange(i as int, j as int);
            let ghost before = out@;
            if word.as_str().as_bytes().len() > 2 {
                let lower: String = to_lower(word.as_str());
                if !has_text(&out, lower.as_str()) {
                    out.push(lower);
                    proof {
                        assert(texts(out@) =~= texts(before).push(lower@));
                        assert forall|t: Seq<char>|
                            texts(out@).contains(t) <==> texts(before).contains(t) || t
                                == lower@ by {
                            if texts(before).contains(t) {
                                let k = choose|k: int|
                                    0 <= k < texts(before).len() && texts(before)[k] == t;
                                assert(texts(out@)[k] == t);
                            }
                            if t == lower@ {
                                assert(texts(out@)[texts(before).len() as int] == t);
                            }
                        }
                    }
                }
            }
            proof {
                assert forall|t: Seq<char>| #[trigger] is_token_by(s@, j as int, t) implies (
                is_token_by(s@, i as int, t) || (byte_len(w) > 2 && t == lowered(w))) by {
                    let (a, b) = choose|a: int, b: int|
                        #![trigger is_word_at(s@, a, b)]
                        {
                            &&& is_word_at(s@, a, b)
                            &&& b <= j
                            &&& byte_len(s@.subrange(a, b)) > 2
                            &&& t == lowered(s@.subrange(a, b))
                        };
                    if b > i {
                        if a < i {
                            assert(is_word_char(s@[i - 1]));
                        }
                        if a > i {
                            assert(is_word_char(v@[a - 1]));
                        }
                        if b < j {
                            assert(is_word_char(v@[b as int]));
                        }
                    }
                }
                assert forall|t: Seq<char>|
                    #[trigger] is_token_by(s@, i as int, t) implies is_token_by(
                    s@,
                    j as int,
                    t,
                ) by {
                    let (a, b) = choose|a: int, b: int|
                        #![trigger is_word_at(s@, a, b)]
                        {
                            &&& is_word_at(s@, a, b)
                            &&& b <= i
                            &&& byte_len(s@.subrange(a, b)) > 2
                            &&& t == lowered(s@.subrange(a, b))
                        };
                    assert(is_word_at(s@, a, b));
                }
                if byte_len(w) > 2 {
                    assert(is_word_at(s@, i as int, j as int));
                    assert(is_token_by(s@, j as int, lowered(w)));
                }
                assert forall|t: Seq<char>|
                    texts(out@).contains(t) <==> is_token_by(s@, j as int, t) by {
                    assert(texts(before).contains(t) <==> is_token_by(s@, i as int, t));
                    assert(texts(out@).contains(t) <==> texts(before).contains(t) || (byte_len(w)
                        > 2 && t == lowered(w)));
                }
            }
            i = j;
        }
    }
    assert(texts(out@).to_set() =~= tokens(s@));
    out
}

/// How many texts of `own` stand in `first` or in `second`.
pub fn count_shared(own: &Vec<String>, first: &Vec<String>, second: &Vec<String>) -> (n: usize)
    requires
        texts(own@).no_duplicates(),
    ensures
        n == texts(own@).to_set().intersect(
            texts(first@).to_set().union(texts(second@).to_set()),
        ).len(),
{
    let ghost others = texts(first@).to_set().union(texts(second@).to_set());
    let ghost mine = texts(own@);
    let mut n: usize = 0;
    let mut i: usize = 0;
    assert(mine.take(0).to_set().intersect(others) =~= Set::<Seq<char>>::empty());
    while i < own.len()
        invariant
            i <= own.len(),
            n <= i,
            mine == texts(own@),
            mine.no_duplicates(),
            others == texts(first@).to_set().union(texts(second@).to_set()),
            n == mine.take(i as int).to_set().intersect(others).len(),
        decreases own.len() - i,
    {
        proof {
            let t = mine[i as int];
            let old_set = mine.take(i as int).to_set();
            let new_set = mine.take(i + 1).to_set();
            assert(mine.take(i + 1) =~= mine.take(i as int).push(t));
            assert(new_set =~= old_set.insert(t)) by {
                assert forall|x: Seq<char>| new_set.contains(x) <==> old_set.insert(t).contains(
                    x,
                ) by {
                    if mine.take(i as int).contains(x) {
                        let k = choose|k: int|
                            0 <= k < mine.take(i as int).len() && mine.take(i as int)[k] == x;
                        assert(mine.take(i + 1)[k] == x);
                    }
                    if x == t {
                        assert(mine.take(i + 1)[i as int] == x);
                    }
                }
            }
            assert(!old_set.contains(t)) by {
                if mine.take(i as int).contains(t) {
                    let k = choose|k: int|
                        0 <= k < mine.take(i as int).len() && mine.take(i as int)[k] == t;
                    assert(mine[k] == mine[i as int]);
                }
            }
            vstd::seq_lib::seq_to_set_is_finite(mine.take(i as int));
            assert(old_set.intersect(others).finite());
            if others.contains(t) {
                assert(new_set.intersect(others) =~= old_set.intersect(others).insert(t));
            } else {
                assert(new_set.intersect(others) =~= old_set.intersect(others));
            }
            assert(mine[i as int] == own@[i as int]@);
        }
        if has_text(first, own[i].as_str()) || has_text(second, own[i].as_str()) {
            n += 1;
        }
        i += 1;
    }
    assert(mine.take(i as int) =~= mine);
    n
}

// ---------------------------------------------------------------------------
// Laws
// ---------------------------------------------------------------------------

/// Words are made of ASCII letters and digits, and of what Unicode counts among
/// letters and numbers beyond ASCII.
pub proof fn words_are_letters_and_digits(c: char)
    ensures
        ('0' <= c <= '9') || ('A' <= c <= 'Z') || ('a' <= c <= 'z') ==> is_word_char(c),
        (c as u32) < 128 && !('0' <= c <= '9') && !('A' <= c <= 'Z') && !('a' <= c <= 'z')
            ==> !is_word_char(c),
        c as u32 >= 128 ==> is_word_char(c) == unicode_alphanumeric(c),
{
}

/// The words of a text are its longest runs of word characters. Those of more than
/// two bytes come out in lower case, each once, and nothing else does.
pub proof fn words_are_the_longest_runs(s: &str, r: Vec<String>, t: Seq<char>)
    requires
        call_ensures(tokens_of, (s,), r),
    ensures
        (exists|k: int| 0 <= k < r@.len() && (#[trigger] r@[k])@ == t) <==> exists|i: int, j: int|
            #![trigger s@.subrange(i, j)]
            {
                &&& 0 <= i < j <= s@.len()
                &&& forall|k: int| i <= k < j ==> is_word_char(#[trigger] s@[k])
                &&& i == 0 || !is_word_char(s@[i - 1])
                &&& j == s@.len() || !is_word_char(s@[j])
                &&& byte_len(s@.subrange(i, j)) > 2
                &&& t == lowered(s@.subrange(i, j))
            },
        forall|a: int, b: int|
            0 <= a < r@.len() && 0 <= b < r@.len() && a != b ==> (#[trigger] r@[a])@ != (
            #[trigger] r@[b])@,
{
    let said = texts(r@);
    assert(said.to_set() == tokens(s@));
    assert(said.to_set().contains(t) <==> said.contains(t));
    assert(tokens(s@).contains(t) <==> is_token_by(s@, s@.len() as int, t));
    if exists|k: int| 0 <= k < r@.len() && (#[trigger] r@[k])@ == t {
        let k = choose|k: int| 0 <= k < r@.len() && (#[trigger] r@[k])@ == t;
        assert(said[k] == t);
        let (i, j) = choose|i: int, j: int|
            #![trigger is_word_at(s@, i, j)]
            {
                &&& is_word_at(s@, i, j)
                &&& j <= s@.len()
                &&& byte_len(s@.subrange(i, j)) > 2
                &&& t == lowered(s@.subrange(i, j))
            };
        assert(is_word_at(s@, i, j));
        assert(t == lowered(s@.subrange(i, j)));
    }
    if exists|i: int, j: int|
        #![trigger s@.subrange(i, j)]
        {
            &&& 0 <= i < j <= s@.len()
            &&& forall|k: int| i <= k < j ==> is_word_char(#[trigger] s@[k])
            &&& i == 0 || !is_word_char(s@[i - 1])
            &&& j == s@.len() || !is_word_char(s@[j])
            &&& byte_len(s@.subrange(i, j)) > 2
            &&& t == lowered(s@.subrange(i, j))
        } {
        let (i, j) = choose|i: int, j: int|
            #![trigger s@.subrange(i, j)]
            {
                &&& 0 <= i < j <= s@.len()
                &&& forall|k: int| i <= k < j ==> is_word_char(#[trigger] s@[k])
                &&& i == 0 || !is_word_char(s@[i - 1])
                &&& j == s@.len() || !is_word_char(s@[j])
                &&& byte_len(s@.subrange(i, j)) > 2
                &&& t == lowered(s@.subrange(i, j))
            };
        assert(is_word_at(s@, i, j));
        assert(is_token_by(s@, s@.len() as int, t));
        let k = choose|k: int| 0 <= k < said.len() && said[k] == t;
        assert(r@[k]@ == t);
    }
    assert forall|a: int, b: int|
        0 <= a < r@.len() && 0 <= b < r@.len() && a != b implies (#[trigger] r@[a])@ != (
    #[trigger] r@[b])@ by {
        assert(said[a] != said[b]);
    }
}

/// A text is among others exactly if one of them reads the same.
pub proof fn texts_are_found_by_what_they_say(v: &Vec<String>, t: &str, r: bool)
    requires
        call_ensures(has_text, (v, t), r),
    ensures
        r <==> exists|k: int| 0 <= k < v@.len() && (#[trigger] v@[k])@ == t@,
{
    let said = texts(v@);
    if r {
        let k = choose|k: int| 0 <= k < said.len() && said[k] == t@;
        assert(v@[k]@ == t@);
    }
    if exists|k: int| 0 <= k < v@.len() && (#[trigger] v@[k])@ == t@ {
        let k = choose|k: int| 0 <= k < v@.len() && (#[trigger] v@[k])@ == t@;
        assert(said[k] == t@);
    }
}

/// Texts are shared exactly if they stand among the own and among the first or the
/// second others. A text that stands among both counts once.
pub proof fn shared_texts_count_once(
    own: &Vec<String>,
    first: &Vec<String>,
    second: &Vec<String>,
    n: usize,
)
    requires
        call_ensures(count_shared, (own, first, second), n),
    ensures
        n == Set::new(
            |t: Seq<char>|
                texts(own@).contains(t) && (texts(first@).contains(t) || texts(second@).contains(
                    t,
                )),
        ).len(),
{
    assert(texts(own@).to_set().intersect(texts(first@).to_set().union(texts(second@).to_set()))
        =~= Set::new(
        |t: Seq<char>|
            texts(own@).contains(t) && (texts(first@).contains(t) || texts(second@).contains(t)),
    ));
}

} // verus!
