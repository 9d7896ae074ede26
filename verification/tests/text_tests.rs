use remux_server::ids::MediaId;
use remux_server::language::lang_to_two_letter;
use remux_server::language::pick_language;
use remux_server::language::read_lang;
use remux_server::language::to_lower;
use remux_server::language::LangText;
use remux_server::number::decimal_i64;
use remux_server::number::decimal_u64;
use remux_server::number::parse_u32;
use remux_server::text::blank;
use remux_server::text::chars_of;
use remux_server::text::contains;
use remux_server::text::ends_with;
use remux_server::text::head_before;
use remux_server::text::push_text;
use remux_server::text::same_ignoring_ascii_case;
use remux_server::text::same_text;
use remux_server::text::starts_with;
use remux_server::text::string_of;
use remux_server::text::tail_after;
use remux_server::text::to_ascii_lower;
use remux_server::text::trim;
use remux_server::words::tokens_of;

const ID: MediaId = MediaId { bits: 0x0123_4567_89ab_cdef_0011_2233_4455_66fa };

#[test]
fn ids_are_written_with_and_without_hyphens() {
    assert_eq!(ID.to_text(), "01234567-89ab-cdef-0011-2233445566fa");
    assert_eq!(ID.to_simple_text(), "0123456789abcdef00112233445566fa");
    assert_eq!(MediaId { bits: 0 }.to_text(), "00000000-0000-0000-0000-000000000000");
    assert_eq!(MediaId { bits: u128::MAX }.to_simple_text(), "f".repeat(32));
}

#[test]
fn different_ids_have_different_texts() {
    let other = MediaId { bits: ID.bits + 1 };
    assert_ne!(ID.to_text(), other.to_text());
    assert_ne!(ID.to_simple_text(), other.to_simple_text());
}

#[test]
fn characters_make_up_the_text_again() {
    let text = "aß😀\n";
    assert_eq!(chars_of(text), vec!['a', 'ß', '😀', '\n']);
    assert_eq!(string_of(&chars_of(text)), text);
    assert_eq!(string_of(&Vec::new()), "");
}

#[test]
fn texts_are_compared_and_searched() {
    assert!(same_text("abc", "abc"));
    assert!(!same_text("abc", "abd"));
    assert!(!same_text("abc", "ab"));
    assert!(contains("xxneedlexx", "needle"));
    assert!(contains("x", ""));
    assert!(!contains("needl", "needle"));
    assert!(starts_with("Main - Stereo", "Main"));
    assert!(!starts_with("Mai", "Main"));
    assert!(ends_with("segment.ts", ".ts"));
    assert!(!ends_with("ts", ".ts"));
    assert!(same_ignoring_ascii_case("AaC", "aac"));
    assert!(!same_ignoring_ascii_case("É", "é"));
}

#[test]
fn texts_are_cut_at_the_last_character() {
    assert_eq!(tail_after("a/b/c", '/'), "c");
    assert_eq!(tail_after("abc", '/'), "abc");
    assert_eq!(tail_after("abc/", '/'), "");
    assert_eq!(head_before("a.b.ts", '.'), "a.b");
    assert_eq!(head_before("abc", '.'), "abc");
    assert_eq!(head_before(".ts", '.'), "");
}

#[test]
fn white_space_is_trimmed() {
    assert_eq!(trim("\u{3000} a b \n\t"), "a b");
    assert_eq!(trim(" \u{85}\u{a0} "), "");
    assert_eq!(trim(&trim("\u{3000} a b \n\t")), "a b");
    assert!(blank(""));
    assert!(blank(" \r\n\u{2028}"));
    assert!(!blank(" . "));
    assert!(!blank("\u{200b}"));
}

#[test]
fn texts_are_lowered() {
    assert_eq!(to_ascii_lower("VTT É"), "vtt É");
    assert_eq!(to_lower("ENG"), "eng");
    assert_eq!(to_lower("ÉCOLE"), "école");
    assert_eq!(to_lower("İ"), "i\u{307}");
}

#[test]
fn texts_are_appended_to_a_vector() {
    let mut v: Vec<String> = vec!["-i".to_string()];
    push_text(&mut v, "file");
    assert_eq!(v, vec!["-i", "file"]);
}

#[test]
fn numbers_are_written() {
    assert_eq!(decimal_u64(0), "0");
    assert_eq!(decimal_u64(u64::MAX), "18446744073709551615");
    assert_eq!(decimal_i64(-7), "-7");
    assert_eq!(decimal_i64(i64::MIN), "-9223372036854775808");
    assert_eq!(decimal_i64(120), "120");
}

#[test]
fn numbers_are_read() {
    assert_eq!(parse_u32("00012"), Some(12));
    assert_eq!(parse_u32("+7"), Some(7));
    assert_eq!(parse_u32("4294967295"), Some(u32::MAX));
    assert_eq!(parse_u32("4294967296"), None);
    assert_eq!(parse_u32(""), None);
    assert_eq!(parse_u32("+"), None);
    assert_eq!(parse_u32("-1"), None);
    assert_eq!(parse_u32("1a"), None);
    assert_eq!(parse_u32("٣"), None);
}

#[test]
fn written_numbers_are_read_back() {
    for n in [0u32, 9, 10, 99, 4_000_000_000, u32::MAX] {
        assert_eq!(parse_u32(&decimal_u64(n as u64)), Some(n));
    }
}

#[test]
fn three_letter_codes_become_two_letter_codes() {
    assert_eq!(lang_to_two_letter("eng"), Some("en".to_string()));
    assert_eq!(lang_to_two_letter(" DEU "), Some("de".to_string()));
    assert_eq!(lang_to_two_letter("fra"), Some("fr".to_string()));
}

#[test]
fn two_letter_codes_stay() {
    assert_eq!(lang_to_two_letter("EN"), Some("en".to_string()));
    assert_eq!(lang_to_two_letter("zz"), Some("zz".to_string()));
    assert_eq!(lang_to_two_letter("É"), Some("é".to_string()));
}

#[test]
fn codes_stand_for_themselves() {
    for lang in [" ENG ", "eng", "DEU", "zz", " Q7", "no such language", ""] {
        if let Some(code) = lang_to_two_letter(lang) {
            assert_eq!(code.len(), 2);
            assert_eq!(lang_to_two_letter(&code), Some(code));
        }
    }
    assert_eq!(lang_to_two_letter(" ENG "), lang_to_two_letter("eng"));
    assert_eq!(lang_to_two_letter(" ENG "), Some("en".to_string()));
    assert_eq!(lang_to_two_letter(" Q7"), Some("q7".to_string()));
}

#[test]
fn unknown_languages_have_no_code() {
    assert_eq!(lang_to_two_letter(""), None);
    assert_eq!(lang_to_two_letter("   "), None);
    assert_eq!(lang_to_two_letter("no such language"), None);
    // A language without a two-letter code.
    assert_eq!(lang_to_two_letter("ast"), None);
}

#[test]
fn language_texts_are_sorted() {
    assert!(matches!(read_lang(String::new()), LangText::Empty));
    assert!(matches!(read_lang("en".to_string()), LangText::Code(s) if s == "en"));
    assert!(matches!(read_lang("eng".to_string()), LangText::Name(s) if s == "eng"));
}

#[test]
fn codes_go_before_names() {
    assert_eq!(pick_language(Some(1), Some(2)), Some(1));
    assert_eq!(pick_language(None, Some(2)), Some(2));
    assert_eq!(pick_language(None, None), None);
}

#[test]
fn words_are_found_once_each() {
    let mut words = tokens_of("The.Great-Film the 2024 (4K) ÉCOLE日本語");
    words.sort();
    assert_eq!(words, vec!["2024", "film", "great", "the", "école日本語"]);
    assert!(tokens_of("a b cd").is_empty());
    assert!(tokens_of("").is_empty());
}
