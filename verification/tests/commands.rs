use image_collector::text::{
    begins_with, copy_range, find_last, find_word_end, find_word_start, push_decimal,
    read_numeral, spells, take_second_word, to_chars, whitespace,
};
use image_collector::{
    export, has_image_extension, interpret, parse_reference, Command, MessageReference,
    SessionError,
};

fn reference(channel_id: u64, message_id: u64) -> MessageReference {
    MessageReference { channel_id, message_id }
}

fn number(text: &str) -> Option<u64> {
    let chars = to_chars(text);
    read_numeral(&chars, 0, chars.len())
}

fn decimal(n: u64) -> String {
    let mut out = String::new();
    push_decimal(&mut out, n);
    out
}

#[test]
fn plain_commands_are_matched_exactly() {
    assert_eq!(interpret("!ping"), Ok(Command::Ping));
    assert_eq!(interpret("!debug"), Ok(Command::Inspect));
    assert_eq!(interpret("!begin"), Ok(Command::Begin));
    assert_eq!(interpret("!end"), Ok(Command::End));
}

#[test]
fn commands_are_case_sensitive_and_take_no_padding() {
    assert_eq!(interpret("!Ping"), Ok(Command::ImageCandidate));
    assert_eq!(interpret("!BEGIN"), Ok(Command::ImageCandidate));
    assert_eq!(interpret(" !begin"), Ok(Command::ImageCandidate));
    assert_eq!(interpret("!begin "), Ok(Command::ImageCandidate));
    assert_eq!(interpret("!ending"), Ok(Command::ImageCandidate));
    assert_eq!(interpret("!en"), Ok(Command::ImageCandidate));
}

#[test]
fn any_other_content_is_an_image_candidate() {
    assert_eq!(interpret(""), Ok(Command::ImageCandidate));
    assert_eq!(interpret("here you go"), Ok(Command::ImageCandidate));
    assert_eq!(interpret("!help"), Ok(Command::ImageCandidate));
    assert_eq!(interpret("!extrac 1/2"), Ok(Command::ImageCandidate));
    assert_eq!(interpret(" !extract 1/2"), Ok(Command::ImageCandidate));
}

#[test]
fn extract_reads_channel_and_message_from_the_link() {
    assert_eq!(
        interpret("!extract https://discord.com/channels/111/222/333"),
        Ok(Command::ExtractFromReference(reference(222, 333)))
    );
    assert_eq!(interpret("!extract 5/6"), Ok(Command::ExtractFromReference(reference(5, 6))));
    assert_eq!(
        interpret("!extract   \t 5/6   trailing words"),
        Ok(Command::ExtractFromReference(reference(5, 6)))
    );
    assert_eq!(
        interpret("!extract\u{3000}7/8"),
        Ok(Command::ExtractFromReference(reference(7, 8)))
    );
    assert_eq!(interpret("!extracted a/1/2"), Ok(Command::ExtractFromReference(reference(1, 2))));
}

#[test]
fn extract_without_a_usable_link_is_an_invalid_reference() {
    assert_eq!(interpret("!extract"), Err(SessionError::InvalidReference));
    assert_eq!(interpret("!extract   "), Err(SessionError::InvalidReference));
    assert_eq!(interpret("!extract 12345"), Err(SessionError::InvalidReference));
    assert_eq!(interpret("!extract a/b"), Err(SessionError::InvalidReference));
    assert_eq!(interpret("!extract 1/b"), Err(SessionError::InvalidReference));
    assert_eq!(interpret("!extract a/2"), Err(SessionError::InvalidReference));
    assert_eq!(interpret("!extract 1/2/"), Err(SessionError::InvalidReference));
    assert_eq!(interpret("!extract 1//2"), Err(SessionError::InvalidReference));
    assert_eq!(interpret("!extract1/2"), Err(SessionError::InvalidReference));
    assert_eq!(interpret("!extract 1 /2"), Err(SessionError::InvalidReference));
}

#[test]
fn references_are_the_last_two_parts_of_a_link() {
    assert_eq!(parse_reference("https://discord.com/channels/1/2/3"), Ok(reference(2, 3)));
    assert_eq!(parse_reference("/2/3"), Ok(reference(2, 3)));
    assert_eq!(parse_reference("2/3"), Ok(reference(2, 3)));
    assert_eq!(parse_reference("a/b/c/d/e/f/10/20"), Ok(reference(10, 20)));
    assert_eq!(parse_reference("0/0"), Ok(reference(0, 0)));
    assert_eq!(
        parse_reference("18446744073709551615/18446744073709551615"),
        Ok(reference(u64::MAX, u64::MAX))
    );
}

#[test]
fn malformed_references_are_refused() {
    assert_eq!(parse_reference(""), Err(SessionError::InvalidReference));
    assert_eq!(parse_reference("3"), Err(SessionError::InvalidReference));
    assert_eq!(parse_reference("/3"), Err(SessionError::InvalidReference));
    assert_eq!(parse_reference("2/"), Err(SessionError::InvalidReference));
    assert_eq!(parse_reference("/"), Err(SessionError::InvalidReference));
    assert_eq!(parse_reference("x2/3"), Err(SessionError::InvalidReference));
    assert_eq!(parse_reference("2/3x"), Err(SessionError::InvalidReference));
    assert_eq!(parse_reference("2/-3"), Err(SessionError::InvalidReference));
    assert_eq!(parse_reference("2/ 3"), Err(SessionError::InvalidReference));
    assert_eq!(parse_reference("18446744073709551616/3"), Err(SessionError::InvalidReference));
    assert_eq!(parse_reference("2/18446744073709551616"), Err(SessionError::InvalidReference));
}

#[test]
fn numerals_are_digits_with_an_optional_plus() {
    assert_eq!(number("0"), Some(0));
    assert_eq!(number("007"), Some(7));
    assert_eq!(number("+42"), Some(42));
    assert_eq!(number("1234567890"), Some(1234567890));
    assert_eq!(number("18446744073709551615"), Some(u64::MAX));
    assert_eq!(number("00018446744073709551615"), Some(u64::MAX));
}

#[test]
fn what_is_no_numeral_reads_as_nothing() {
    assert_eq!(number(""), None);
    assert_eq!(number("+"), None);
    assert_eq!(number("++1"), None);
    assert_eq!(number("-1"), None);
    assert_eq!(number("1_000"), None);
    assert_eq!(number("12 "), None);
    assert_eq!(number(" 12"), None);
    assert_eq!(number("1e3"), None);
    assert_eq!(number("\u{661}"), None);
    assert_eq!(number("18446744073709551616"), None);
    assert_eq!(number("99999999999999999999"), None);
    assert_eq!(number("184467440737095516150"), None);
}

#[test]
fn numerals_agree_with_the_standard_parser() {
    for text in ["0", "+0", "17", "+17", "0017", "", "+", "-", "-0", "1+", "+-1", "18446744073709551615", "18446744073709551616", "a", "1a", " 1"] {
        assert_eq!(number(text), text.parse::<u64>().ok(), "on {:?}", text);
    }
}

#[test]
fn a_numeral_is_read_from_the_middle_of_a_text() {
    let chars = to_chars("ab123cd");
    assert_eq!(read_numeral(&chars, 2, 5), Some(123));
    assert_eq!(read_numeral(&chars, 2, 6), None);
    assert_eq!(read_numeral(&chars, 3, 3), None);
}

#[test]
fn decimals_are_written_without_padding() {
    assert_eq!(decimal(0), "0");
    assert_eq!(decimal(7), "7");
    assert_eq!(decimal(10), "10");
    assert_eq!(decimal(1090), "1090");
    assert_eq!(decimal(u64::MAX), "18446744073709551615");
}

#[test]
fn decimals_are_appended_to_what_is_there() {
    let mut out = String::from("n=");
    push_decimal(&mut out, 305);
    assert_eq!(out, "n=305");
}

#[test]
fn written_decimals_read_back() {
    for n in [0u64, 1, 9, 10, 99, 100, 12345, u64::MAX - 1, u64::MAX] {
        assert_eq!(number(&decimal(n)), Some(n));
        assert_eq!(decimal(n), n.to_string());
    }
}

#[test]
fn image_extensions_are_the_seven_known_ones() {
    for name in ["a.jpg", "a.jpeg", "a.png", "a.gif", "a.webp", "a.bmp", "a.tiff"] {
        assert!(has_image_extension(name), "{}", name);
    }
    for name in ["a.txt", "a.svg", "a.tif", "a.jpe", "a.pngx", "a.xpng", "a.mp4", "a."] {
        assert!(!has_image_extension(name), "{}", name);
    }
}

#[test]
fn image_extensions_are_matched_as_written() {
    assert!(!has_image_extension("a.PNG"));
    assert!(!has_image_extension("a.Jpg"));
    assert!(!has_image_extension("a.png "));
}

#[test]
fn the_extension_is_what_follows_the_last_dot() {
    assert!(has_image_extension("archive.tar.gif"));
    assert!(!has_image_extension("photo.png.txt"));
    assert!(has_image_extension(".png"));
    assert!(has_image_extension("png"));
    assert!(!has_image_extension(""));
    assert!(!has_image_extension("png."));
}

#[test]
fn export_joins_with_carriage_return_and_line_feed() {
    assert_eq!(export(&vec![]), "");
    assert_eq!(export(&vec!["one".to_string()]), "one");
    assert_eq!(export(&vec!["one".to_string(), "two".to_string()]), "one\r\ntwo");
    assert_eq!(
        export(&vec!["".to_string(), "b".to_string(), "".to_string()]),
        "\r\nb\r\n"
    );
}

#[test]
fn whitespace_is_what_unicode_says() {
    for c in [' ', '\t', '\n', '\u{b}', '\u{c}', '\r', '\u{85}', '\u{a0}', '\u{1680}', '\u{2000}', '\u{2005}', '\u{200a}', '\u{2028}', '\u{2029}', '\u{202f}', '\u{205f}', '\u{3000}'] {
        assert!(whitespace(c), "{:?}", c);
    }
    for c in ['a', '0', '/', '\u{8}', '\u{e}', '\u{1f}', '\u{200b}', '\u{180e}', '\u{feff}', '\u{2060}'] {
        assert!(!whitespace(c), "{:?}", c);
    }
}

#[test]
fn whitespace_agrees_with_the_standard_library() {
    for code in 0u32..0x3100 {
        if let Some(c) = char::from_u32(code) {
            assert_eq!(whitespace(c), c.is_whitespace(), "{:?}", c);
        }
    }
}

#[test]
fn words_are_found_between_whitespace() {
    let chars = to_chars("  ab \t cde");
    assert_eq!(find_word_start(&chars, 0), 2);
    assert_eq!(find_word_end(&chars, 2), 4);
    assert_eq!(find_word_start(&chars, 4), 7);
    assert_eq!(find_word_end(&chars, 7), 10);
    assert_eq!(find_word_start(&chars, 10), 10);
    assert_eq!(find_word_end(&chars, 10), 10);
}

#[test]
fn the_second_word_is_picked_out() {
    assert_eq!(take_second_word(&to_chars("one two three")), to_chars("two"));
    assert_eq!(take_second_word(&to_chars("  one\n\ntwo  ")), to_chars("two"));
    assert_eq!(take_second_word(&to_chars("one")), to_chars(""));
    assert_eq!(take_second_word(&to_chars("one   ")), to_chars(""));
    assert_eq!(take_second_word(&to_chars("")), to_chars(""));
}

#[test]
fn characters_are_taken_one_by_one() {
    assert_eq!(to_chars(""), Vec::<char>::new());
    assert_eq!(to_chars("a\u{e9}\u{1f600}"), vec!['a', '\u{e9}', '\u{1f600}']);
}

#[test]
fn spelling_is_compared_on_a_range() {
    let chars = to_chars("say !ping now");
    assert!(spells(&chars, 4, 9, "!ping"));
    assert!(!spells(&chars, 4, 8, "!ping"));
    assert!(!spells(&chars, 3, 8, "!ping"));
    assert!(spells(&chars, 2, 2, ""));
    assert!(begins_with(&chars, "say"));
    assert!(begins_with(&chars, ""));
    assert!(!begins_with(&chars, "say !ping now!"));
    assert!(!begins_with(&chars, "ay"));
}

#[test]
fn the_last_occurrence_is_found() {
    let chars = to_chars("a/b/c");
    assert_eq!(find_last(&chars, 5, '/'), Some(3));
    assert_eq!(find_last(&chars, 3, '/'), Some(1));
    assert_eq!(find_last(&chars, 1, '/'), None);
    assert_eq!(find_last(&chars, 0, '/'), None);
    assert_eq!(find_last(&chars, 5, 'x'), None);
    assert_eq!(copy_range(&chars, 2, 5), to_chars("b/c"));
}
