//! Languages and lower case.

use vstd::prelude::*;
use vstd::utf8::encode_utf8;
use vstd::utf8::is_ascii_chars;
use vstd::utf8::is_ascii_chars_encode_utf8;
use std::str::FromStr;

use crate::text::ascii_lower;
use crate::text::ascii_lowered;
use crate::text::to_ascii_lower;
use crate::text::trim;
use crate::text::trimmed;
use crate::text::trimmed_texts_stay;

verus! {

// ---------------------------------------------------------------------------
// Lower case
// ---------------------------------------------------------------------------

/// The lower case of a text, as `str::to_lowercase` writes it.
pub uninterp spec fn unicode_lowered(s: Seq<char>) -> Seq<char>;

/// `str::to_lowercase`: the text in lower case, by the Unicode tables. Nothing is
/// said of a text that is lowered twice.
#[verifier::external_body]
fn unicode_lowercase(s: &str) -> (r: String)
    ensures
        r@ == unicode_lowered(s@),
{
    s.to_lowercase()
}

/// A text in lower case. ASCII letters are lowered one by one; of a text with
/// other characters the Unicode tables decide.
pub open spec fn lowered(s: Seq<char>) -> Seq<char> {
    if is_ascii_chars(s) {
        ascii_lowered(s)
    } else {
        unicode_lowered(s)
    }
}

/// Turns a text into lower case.
pub fn to_lower(s: &str) -> (r: String)
    ensures
        r@ == lowered(s@),
{
    if s.is_ascii() {
        to_ascii_lower(s)
    } else {
        unicode_lowercase(s)
    }
}

// ---------------------------------------------------------------------------
// Language codes
// ---------------------------------------------------------------------------

/// The number of bytes of a text in UTF-8.
pub open spec fn byte_len(s: Seq<char>) -> nat {
    encode_utf8(s).len()
}

/// The language with an ISO 639-3 code, by its number in the table of languages.
pub uninterp spec fn language_of_639_3(code: Seq<char>) -> Option<usize>;

/// The language that a text names, by its number in the table of languages.
pub uninterp spec fn language_of_text(text: Seq<char>) -> Option<usize>;

/// The ISO 639-1 code of the language with a number in the table of languages.
pub uninterp spec fn code_639_1(language: usize) -> Option<Seq<char>>;

/// `isolang::Language::from_639_3`: looks a code up in a fixed table. Only a
/// code of three bytes is found.
#[verifier::external_body]
fn find_639_3(code: &str) -> (r: Option<usize>)
    ensures
        r == language_of_639_3(code@),
        r is Some ==> byte_len(code@) == 3,
{
    isolang::Language::from_639_3(code).map(|l| l as usize)
}

/// `isolang::Language::from_str`: looks a text up in the same fixed table. What
/// texts beside the codes it finds depends on how that crate is built.
#[verifier::external_body]
fn find_text(text: &str) -> (r: Option<usize>)
    ensures
        r == language_of_text(text@),
{
    isolang::Language::from_str(text).ok().map(|l| l as usize)
}

/// Two small ASCII letters.
pub open spec fn is_letter_code(s: Seq<char>) -> bool {
    &&& s.len() == 2
    &&& 'a' <= s[0] <= 'z'
    &&& 'a' <= s[1] <= 'z'
}

/// `isolang::Language::to_639_1`: the code that a fixed table gives the language,
/// for the languages that have one. Every code of the table is two small ASCII
/// letters.
#[verifier::external_body]
fn find_639_1(language: usize) -> (r: Option<String>)
    ensures
        (match r {
            Some(s) => code_639_1(language) == Some(s@) && is_letter_code(s@),
            None => code_639_1(language) is None,
        }),
{
    isolang::Language::from_usize(language)?.to_639_1().map(|s| s.to_string())
}

/// What a language text in lower case says without a look into the table.
#[derive(Debug)]
pub enum LangText {
    /// Nothing at all.
    Empty,
    /// A text of two bytes, which is taken for a code as it stands.
    Code(String),
    /// A text that has to be looked up.
    Name(String),
}

/// Sorts a language text in lower case.
pub fn read_lang(lower: String) -> (r: LangText)
    ensures
        match r {
            LangText::Empty => lower@.len() == 0,
            LangText::Code(s) => s == lower && lower@.len() > 0 && byte_len(lower@) == 2,
            LangText::Name(s) => s == lower && lower@.len() > 0 && byte_len(lower@) != 2,
        },
{
    if lower.as_str().is_empty() {
        LangText::Empty
    } else if lower.as_str().as_bytes().len() == 2 {
        LangText::Code(lower)
    } else {
        LangText::Name(lower)
    }
}

/// The language that a text in lower case names: by its ISO 639-3 code, else by
/// whatever else the table knows it under.
pub open spec fn named_language(
    by_code: Option<usize>,
    by_text: Option<usize>,
) -> Option<usize> {
    match by_code {
        Some(l) => Some(l),
        None => by_text,
    }
}

/// Chooses between what the two lookups of a text found.
pub fn pick_language(by_code: Option<usize>, by_text: Option<usize>) -> (r: Option<usize>)
    ensures
        r == named_language(by_code, by_text),
{
    match by_code {
        Some(l) => Some(l),
        None => by_text,
    }
}

/// The two-letter code for a language text in lower case.
pub open spec fn two_letter_of_lower(lower: Seq<char>) -> Option<Seq<char>> {
    if lower.len() == 0 {
        None
    } else if byte_len(lower) == 2 {
        Some(lower)
    } else {
        match named_language(language_of_639_3(lower), language_of_text(lower)) {
            Some(l) => code_639_1(l),
            None => None,
        }
    }
}

/// The two-letter code for a language text.
pub open spec fn two_letter(lang: Seq<char>) -> Option<Seq<char>> {
    two_letter_of_lower(lowered(trimmed(lang)))
}

/// The two-letter code for a language text: a text of two bytes is taken as it
/// stands, in lower case; a longer one is looked up. Every code that comes out
/// has two bytes. A code that was looked up, the code of an ASCII text, and any
/// other code that is in lower case by the Unicode tables, is its own code.
pub fn lang_to_two_letter(lang: &str) -> (r: Option<String>)
    ensures
        match r {
            Some(s) => {
                &&& two_letter(lang@) == Some(s@)
                &&& byte_len(s@) == 2
                &&& byte_len(lowered(trimmed(lang@))) == 2 || is_letter_code(s@)
                &&& is_ascii_chars(lang@) || is_letter_code(s@) || lowered(trimmed(s@)) == s@
                    ==> two_letter(s@) == Some(s@)
            },
            None => two_letter(lang@) is None,
        },
{
    let trimmed_text: String = trim(lang);
    let lower: String = to_lower(trimmed_text.as_str());
    let code: Option<String> = match read_lang(lower) {
        LangText::Empty => None,
        LangText::Code(code) => Some(code),
        LangText::Name(name) => {
            let by_code: Option<usize> = find_639_3(name.as_str());
            let by_text: Option<usize> = if by_code.is_some() {
                None
            } else {
                find_text(name.as_str())
            };
            match pick_language(by_code, by_text) {
                Some(l) => find_639_1(l),
                None => None,
            }
        },
    };
    proof {
        if code is Some {
            if is_letter_code(code->0@) {
                lemma_letter_code(code->0@);
            } else if is_ascii_chars(lang@) {
                lemma_ascii_code(lang@);
            } else if code->0@.len() == 0 {
                assert(byte_len(code->0@) == 0);
            }
        }
    }
    code
}

// ---------------------------------------------------------------------------
// Laws
// ---------------------------------------------------------------------------

proof fn lemma_letter_code(x: Seq<char>)
    requires
        is_letter_code(x),
    ensures
        byte_len(x) == 2,
        two_letter(x) == Some(x),
{
    assert(is_ascii_chars(x));
    is_ascii_chars_encode_utf8(x);
    trimmed_texts_stay(x);
    assert(ascii_lowered(x) =~= x);
}

proof fn lemma_ascii_code(lang: Seq<char>)
    requires
        is_ascii_chars(lang),
        byte_len(lowered(trimmed(lang))) == 2,
    ensures
        two_letter(lang) == Some(lowered(trimmed(lang))),
        two_letter(lowered(trimmed(lang))) == two_letter(lang),
{
    let t = trimmed(lang);
    let x = ascii_lowered(t);
    trimmed_texts_stay(lang);
    trimmed_texts_stay(t);
    assert(is_ascii_chars(t)) by {
        assert forall|i: int| 0 <= i < t.len() implies '\0' <= #[trigger] t[i] <= '\u{7f}' by {
            let k = choose|k: int| 0 <= k < lang.len() && lang[k] == t[i];
            assert(lang[k] == t[i]);
        }
    }
    assert(is_ascii_chars(x));
    is_ascii_chars_encode_utf8(x);
    assert(x[0] == ascii_lower(t[0]));
    assert(x.last() == ascii_lower(t.last()));
    trimmed_texts_stay(x);
    assert(ascii_lowered(x) =~= x);
}

/// A code is its own code: this holds of everything that comes out for a language
/// text, as long as trimming and lowering keep it.
pub proof fn codes_stand_for_themselves(lang: Seq<char>, x: Seq<char>)
    requires
        two_letter(lang) == Some(x),
        byte_len(x) == 2,
        lowered(trimmed(x)) == x,
    ensures
        two_letter(x) == Some(x),
{
    if x.len() == 0 {
        assert(encode_utf8(x).len() == 0);
    }
}

/// Neither white space around an ASCII text nor the case of its letters changes
/// its code.
pub proof fn spelling_does_not_matter(a: Seq<char>, b: Seq<char>)
    requires
        is_ascii_chars(trimmed(a)),
        is_ascii_chars(trimmed(b)),
        ascii_lowered(trimmed(a)) == ascii_lowered(trimmed(b)),
    ensures
        two_letter(a) == two_letter(b),
{
}

/// An ASCII text is lowered letter by letter.
pub proof fn ascii_texts_are_lowered_by_letter(s: &str, r: String)
    requires
        is_ascii_chars(s@),
        call_ensures(to_lower, (s,), r),
    ensures
        r@.len() == s@.len(),
        forall|i: int|
            0 <= i < s@.len() ==> if 'A' <= s@[i] <= 'Z' {
                #[trigger] r@[i] as u32 == s@[i] as u32 + 32
            } else {
                r@[i] == s@[i]
            },
{
}

/// A text of two bytes is a code, an empty one is nothing, and any other is a name.
pub proof fn two_bytes_are_a_code(lower: String, r: LangText)
    requires
        call_ensures(read_lang, (lower,), r),
    ensures
        r is Empty <==> lower@.len() == 0,
        r is Code <==> lower@.len() > 0 && byte_len(lower@) == 2,
        r matches LangText::Code(s) ==> s@ == lower@,
        r matches LangText::Name(s) ==> s@ == lower@,
{
}

/// What a code finds counts before what a text finds.
pub proof fn codes_count_before_texts(
    by_code: Option<usize>,
    by_text: Option<usize>,
    r: Option<usize>,
)
    requires
        call_ensures(pick_language, (by_code, by_text), r),
    ensures
        by_code is Some ==> r == by_code,
        by_code is None ==> r == by_text,
{
}

/// A language text is trimmed and lowered. Where two bytes are left they are the
/// code. Where nothing is left there is none, and otherwise it is the code of the
/// language that the table has under the text, as an ISO 639-3 code before
/// anything else.
pub proof fn language_texts_are_looked_up(lang: &str, r: Option<String>)
    requires
        call_ensures(lang_to_two_letter, (lang,), r),
    ensures
        ({
            let lower = lowered(trimmed(lang@));
            &&& lower.len() == 0 ==> r is None
            &&& lower.len() > 0 && byte_len(lower) == 2 ==> (r matches Some(s) && s@ == lower)
            &&& lower.len() > 0 && byte_len(lower) != 2 ==> {
                &&& language_of_639_3(lower) matches Some(l) ==> match code_639_1(l) {
                    Some(code) => r matches Some(s) && s@ == code,
                    None => r is None,
                }
                &&& language_of_639_3(lower) is None ==> match language_of_text(lower) {
                    Some(l) => match code_639_1(l) {
                        Some(code) => r matches Some(s) && s@ == code,
                        None => r is None,
                    },
                    None => r is None,
                }
            }
        }),
{
}

} // verus!
