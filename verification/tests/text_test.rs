use acpbridge::clock::{next_delay, passed};
use acpbridge::number::{parse_i64, parse_u64, to_decimal};
use acpbridge::option_map::OptionMap;
use acpbridge::split::{
    clip, cut_at, join, remove_all, split_pieces, split_words, strip_prefix,
};
use acpbridge::text::{byte_len, chars_of, is_white, text_between, trimmed, trimmed_end, trimmed_start};

#[test]
fn white_space_is_what_unicode_says() {
    for n in 0..=0x10ffff_u32 {
        if let Some(c) = char::from_u32(n) {
            assert_eq!(is_white(c), c.is_whitespace());
        }
    }
}

#[test]
fn trimming_agrees_with_the_standard_library() {
    for s in ["", " ", "a", " a", "a ", "\t a b \n", "\u{a0}x\u{2003}", "\u{200b}x"] {
        assert_eq!(trimmed(s), s.trim());
        assert_eq!(trimmed_start(s), s.trim_start());
        assert_eq!(trimmed_end(s), s.trim_end());
    }
}

#[test]
fn characters_go_out_and_come_back() {
    let cs = chars_of("aß漢");
    assert_eq!(cs, vec!['a', 'ß', '漢']);
    assert_eq!(text_between(&cs, 1, 3), "ß漢");
    assert_eq!(byte_len("aß漢"), 6);
}

#[test]
fn numbers_are_written_in_decimal() {
    assert_eq!(to_decimal(0), "0");
    assert_eq!(to_decimal(7), "7");
    assert_eq!(to_decimal(1234567890), "1234567890");
    assert_eq!(to_decimal(u64::MAX), "18446744073709551615");
}

#[test]
fn numbers_are_read_as_the_standard_library_reads_them() {
    for s in [
        "", "+", "-", "0", "7", "007", "+42", "-42", "--1", "+-1", "1a", " 1", "1 ",
        "18446744073709551615", "18446744073709551616", "9223372036854775807",
        "9223372036854775808", "-9223372036854775808", "-9223372036854775809", "١",
    ] {
        assert_eq!(parse_u64(s), s.parse::<u64>().ok());
        assert_eq!(parse_i64(s), s.parse::<i64>().ok());
    }
}

#[test]
fn texts_are_cut_at_the_first_of_a_character() {
    assert_eq!(cut_at("a b c", ' '), ("a".to_string(), Some("b c".to_string())));
    assert_eq!(cut_at("abc", ' '), ("abc".to_string(), None));
    assert_eq!(cut_at(" abc", ' '), ("".to_string(), Some("abc".to_string())));
    assert_eq!(cut_at("abc ", ' '), ("abc".to_string(), Some("".to_string())));
}

#[test]
fn prefixes_are_taken_off() {
    assert_eq!(strip_prefix("c2c:abc", "c2c:"), Some("abc".to_string()));
    assert_eq!(strip_prefix("c2", "c2c:"), None);
    assert_eq!(strip_prefix("group:x", "c2c:"), None);
    assert_eq!(strip_prefix("", ""), Some("".to_string()));
}

#[test]
fn patterns_are_taken_out_from_left_to_right() {
    for (s, pat) in [("a<@1>b<@1>", "<@1>"), ("aaa", "aa"), ("", "x"), ("abc", "x"), ("<<@1>", "<@1>")] {
        assert_eq!(remove_all(s, pat), s.replace(pat, ""));
    }
}

#[test]
fn words_are_split_and_joined() {
    for s in ["", "  ", "a", " a  b\tc\n", "ab cd\u{2003}ef"] {
        let expected: Vec<String> = s.split_whitespace().map(|w| w.to_string()).collect();
        assert_eq!(split_words(s), expected);
    }
    let parts = vec!["a".to_string(), "".to_string(), "c".to_string()];
    assert_eq!(join(&parts, ", "), "a, , c");
    assert_eq!(join(&Vec::new(), ", "), "");
}

#[test]
fn texts_are_split_into_pieces() {
    assert_eq!(split_pieces("abcde", 2), vec!["ab", "cd", "e"]);
    assert_eq!(split_pieces("abcd", 2), vec!["ab", "cd"]);
    assert_eq!(split_pieces("", 2), Vec::<String>::new());
    assert_eq!(split_pieces("ßßß", 2), vec!["ßß", "ß"]);
}

#[test]
fn long_texts_are_clipped() {
    assert_eq!(clip("abcdef", 5), "ab...");
    assert_eq!(clip("abcde", 5), "abcde");
    assert_eq!(clip("漢字漢字漢字", 5), "漢字...");
}

#[test]
fn options_are_kept_in_the_order_of_their_names() {
    let mut options = OptionMap::new();
    options.insert("mode".to_string(), "a".to_string());
    options.insert("Zed".to_string(), "b".to_string());
    options.insert("effort".to_string(), "low".to_string());
    options.insert("effort".to_string(), "high".to_string());
    options.insert("effort2".to_string(), "c".to_string());
    let names: Vec<String> = (0..options.len()).map(|i| options.name_at(i).clone()).collect();
    let mut sorted = names.clone();
    sorted.sort();
    assert_eq!(names, sorted);
    assert_eq!(names, vec!["Zed", "effort", "effort2", "mode"]);
    assert_eq!(options.get("effort"), Some(&"high".to_string()));
    assert_eq!(options.get("missing"), None);
    assert_eq!(options.value_at(0), "b");
}

#[test]
fn delays_double_up_to_a_minute() {
    let mut delay = 1;
    let mut seen = vec![delay];
    for _ in 0..8 {
        delay = next_delay(delay);
        seen.push(delay);
    }
    assert_eq!(seen, vec![1, 2, 4, 8, 16, 32, 60, 60, 60]);
    assert_eq!(next_delay(u64::MAX), 60);
}

#[test]
fn time_passes_only_forward() {
    assert!(!passed(10, 20, 10));
    assert!(passed(10, 21, 10));
    assert!(!passed(20, 10, 0));
}
