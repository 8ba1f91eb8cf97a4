use gameassistant::clock::{file_time_now, local_time_now, utc_time_now};
use gameassistant::identifiers::{new_request_id, new_suffix};
use gameassistant::json::{parse_json, parse_json_bytes, quoted};
use gameassistant::kana::{
    apply_halfwidth_diacritic, fold_kana_char, full_size_kana_char, is_wake_long_mark,
    long_vowel_for, normalize_fullwidth_ascii, normalize_halfwidth_kana, normalize_kana,
};
use gameassistant::lance_memory::checked_backup_name;
use gameassistant::memory_summary::new_attempt_name;
use gameassistant::memory_table::preserve_raw_document_now;
use gameassistant::ordering::{
    comes_before, find_each, first_equal_places, first_occurrences, keys_of, rank_by_keys,
    sort_and_dedup,
};
use gameassistant::summary_server::new_server_api_key;
use gameassistant::text::{
    ascii_lower_text, chars_of, decimal_text, find_text_from, is_blank_text, is_control_char,
    is_white_char, join_texts, parse_u32, remove_white, replace_text, signed_decimal_text,
    split_at_char, split_lines, split_words, strip_trailing, text_begins_with, text_contains,
    trim_text,
};
use gameassistant::wake_word::{
    match_wake_word, normalize_wake_word_key, remove_wake_word_source, wake_word_source_range,
};

fn strings(list: &[&str]) -> Vec<String> {
    list.iter().map(|item| item.to_string()).collect()
}

#[test]
fn characters_are_classified_as_unicode_does() {
    for code in 0..=0x10ffffu32 {
        if let Some(c) = char::from_u32(code) {
            assert_eq!(is_white_char(c), c.is_whitespace(), "{code:x}");
            assert_eq!(is_control_char(c), c.is_control(), "{code:x}");
        }
    }
}

#[test]
fn texts_are_trimmed_and_split() {
    for source in ["", " ", "\u{3000}a b\r\n", "\n\nx\r\ny\n", "a\rb", "a\n", "\r\n", "one  two\tthree "] {
        assert_eq!(trim_text(source), source.trim());
        assert_eq!(is_blank_text(source), source.trim().is_empty());
        assert_eq!(split_lines(source), source.lines().collect::<Vec<_>>());
        assert_eq!(split_words(source), source.split_whitespace().collect::<Vec<_>>());
        assert_eq!(split_at_char(source, 'a'), source.split('a').collect::<Vec<_>>());
        assert_eq!(strip_trailing(source, '\n'), source.trim_end_matches('\n'));
        assert_eq!(
            remove_white(source),
            source.chars().filter(|c| !c.is_whitespace()).collect::<String>()
        );
    }
}

#[test]
fn texts_are_searched_and_replaced() {
    for (source, pattern) in [("aaaa", "aa"), ("abcab", "ab"), ("abc", "x"), ("", "a"), ("猫と猫", "猫")] {
        assert_eq!(replace_text(source, pattern, "-"), source.replace(pattern, "-"));
        assert_eq!(text_contains(source, pattern), source.contains(pattern));
        assert_eq!(text_begins_with(source, pattern), source.starts_with(pattern));
    }
    assert_eq!(find_text_from(&chars_of("abcab"), &chars_of("ab"), 1), Some(3));
    assert_eq!(find_text_from(&chars_of("abcab"), &chars_of("ab"), 4), None);
    assert_eq!(ascii_lower_text("OFF Ä"), "off Ä");
    assert_eq!(join_texts(&strings(&["a", "b", "c"]), ", "), "a, b, c");
    assert_eq!(join_texts(&Vec::new(), ", "), "");
}

#[test]
fn numbers_are_written_and_read() {
    for n in [0u64, 7, 10, 1200, u64::MAX] {
        assert_eq!(decimal_text(n), n.to_string());
    }
    for n in [0i32, -1, 42, i32::MIN, i32::MAX] {
        assert_eq!(signed_decimal_text(n), n.to_string());
    }
    for source in ["", "0", "+5", "-5", "007", "4294967295", "4294967296", "1 ", "x", "+"] {
        assert_eq!(parse_u32(source), source.parse::<u32>().ok(), "{source}");
    }
}

#[test]
fn kana_are_normalized() {
    assert_eq!(normalize_kana("コンニチハ"), "こんにちは");
    assert_eq!(normalize_kana("ゲームアシスタント"), "げーむあしすたんと");
    assert_eq!(normalize_kana("HELLO WORLD"), "hello world");
    assert_eq!(normalize_kana("あ〜〜〜"), "あーーー");
}

#[test]
fn half_and_full_width_characters_are_folded() {
    assert_eq!(normalize_fullwidth_ascii('Ａ'), 'A');
    assert_eq!(normalize_fullwidth_ascii('～'), '~');
    assert_eq!(normalize_fullwidth_ascii('\u{3000}'), ' ');
    assert_eq!(normalize_fullwidth_ascii('あ'), 'あ');
    assert_eq!(normalize_halfwidth_kana('ｸ'), Some('く'));
    assert_eq!(normalize_halfwidth_kana('ｯ'), Some('つ'));
    assert_eq!(normalize_halfwidth_kana('ﾞ'), None);
    assert_eq!(apply_halfwidth_diacritic('く', Some('ﾞ')), 'ぐ');
    assert_eq!(apply_halfwidth_diacritic('ほ', Some('ﾟ')), 'ぽ');
    assert_eq!(apply_halfwidth_diacritic('く', Some('ﾟ')), 'く');
    assert_eq!(apply_halfwidth_diacritic('く', None), 'く');
    assert_eq!(fold_kana_char('グ'), 'ぐ');
    assert_eq!(full_size_kana_char('ぇ'), 'え');
    for mark in ['ー', '〜', '～', '-', '~'] {
        assert!(is_wake_long_mark(mark));
    }
    assert!(!is_wake_long_mark('一'));
    assert_eq!(long_vowel_for(Some('ね')), 'え');
    assert_eq!(long_vowel_for(Some('ゅ')), 'い');
    assert_eq!(long_vowel_for(Some('る')), 'う');
    assert_eq!(long_vowel_for(Some('わ')), 'あ');
}

#[test]
fn white_space_and_spelling_do_not_change_the_key() {
    assert_eq!(normalize_wake_word_key("ネー グリ"), normalize_wake_word_key("ねえぐり"));
    assert_eq!(normalize_wake_word_key("ｸﾞ"), "ぐ");
    assert_ne!(normalize_wake_word_key("ｸ ﾞ"), "ぐ");
}

#[test]
fn a_wake_word_is_found_in_its_source() {
    assert_eq!(wake_word_source_range("ねえ、ネーグリ起きて", "ねえぐり"), Some((9, 21)));
    assert_eq!(
        remove_wake_word_source("ねえ、ネーグリ起きて", "ねえぐり").as_deref(),
        Some("ねえ、起きて")
    );
    assert_eq!(wake_word_source_range("おはよう", "ねえぐり"), None);
    assert_eq!(wake_word_source_range("おはよう", ""), None);
    let words = strings(&["アシスタント"]);
    assert_eq!(match_wake_word("あしすたんと 天気は", &words), (true, "天気は".to_string()));
    assert_eq!(match_wake_word("天気は", &words), (false, "天気は".to_string()));
}

#[test]
fn json_is_read_and_written() {
    let value = parse_json(r#"{"a":[1,true,null,"x"],"b":{"c":"d"}}"#).expect("JSON");
    assert_eq!(value.get("b").and_then(|b| b.text_member("c")).map(|t| t.as_str()), Some("d"));
    assert_eq!(value.get("a").and_then(|a| a.at(1)).and_then(|v| v.as_bool()), Some(true));
    assert!(value.get("a").and_then(|a| a.at(4)).is_none());
    assert!(value.get("missing").is_none());
    assert_eq!(
        parse_json("{").err().as_deref(),
        Some("EOF while parsing an object at line 1 column 1")
    );
    assert_eq!(
        parse_json_bytes(b"[1] x").err().as_deref(),
        Some("trailing characters at line 1 column 5")
    );
    assert!(parse_json_bytes(b"{\"a\":1} x").is_err());
    assert!(parse_json_bytes(&[0xff]).is_err());
    assert_eq!(
        parse_json_bytes("\"\u{732b}\"".as_bytes()).expect("JSON").as_text().map(|t| t.as_str()),
        Some("猫")
    );
    let mut odd = String::new();
    for code in 0..=0xffu8 {
        odd.push(char::from(code));
    }
    odd.push('猫');
    assert_eq!(quoted(&odd), serde_json::to_string(&odd).expect("literal"));
    assert_eq!(quoted("a\"\\\u{1}\n"), "\"a\\\"\\\\\\u0001\\n\"");
}

#[test]
fn texts_are_ranked_by_their_characters() {
    assert!(comes_before(&chars_of("a"), &chars_of("ab")));
    assert!(comes_before(&chars_of(""), &chars_of("a")));
    assert!(!comes_before(&chars_of("b"), &chars_of("ab")));
    assert!(!comes_before(&chars_of("a"), &chars_of("a")));
    let list = strings(&["b", "a", "b", "c"]);
    assert_eq!(rank_by_keys(&keys_of(&list), false), vec![1, 0, 2, 3]);
    assert_eq!(rank_by_keys(&keys_of(&list), true), vec![3, 0, 2, 1]);
    assert_eq!(sort_and_dedup(&list), vec!["a", "b", "c"]);
    assert_eq!(first_equal_places(&keys_of(&list)), vec![0, 1, 0, 3]);
    assert_eq!(first_occurrences(&list), vec![true, true, false, true]);
    assert_eq!(
        find_each(&strings(&["c", "x"]), &list),
        vec![Some(3), None]
    );
}

#[test]
fn times_have_their_shape() {
    let stamp = file_time_now();
    assert_eq!(stamp.len(), 15);
    assert!(stamp
        .bytes()
        .enumerate()
        .all(|(i, byte)| if i == 8 { byte == b'_' } else { byte.is_ascii_digit() }));
    for time in [local_time_now(), utc_time_now()] {
        assert!(time.len() >= 25);
        assert_eq!(time.as_bytes()[4], b'-');
        assert_eq!(time.as_bytes()[10], b'T');
        assert_eq!(time.as_bytes()[time.len() - 3], b':');
    }
    assert!(utc_time_now().ends_with("+00:00"));
}

#[test]
fn identifiers_are_random() {
    let first = new_suffix();
    assert_eq!(first.len(), 32);
    assert!(first.chars().all(|c| matches!(c, '0'..='9' | 'a'..='f')));
    assert_ne!(first, new_suffix());
    let id = new_request_id();
    assert_eq!(id.len(), 36);
    assert_eq!(id.as_bytes()[8], b'-');
    assert_eq!(id.as_bytes()[14], b'4');
    assert!(new_server_api_key().starts_with("ga-"));
    assert_eq!(new_server_api_key().len(), 35);
    assert!(new_attempt_name("retry").starts_with("retry-"));
    let (target, temporary) = preserve_raw_document_now("e-1", 42).expect("plain id");
    assert_eq!(target, "e-1.txt");
    assert!(temporary.starts_with(".e-1.tmp-42-"));
    assert!(preserve_raw_document_now("../x", 42).is_err());
}

#[test]
fn new_snapshots_have_accepted_names() {
    assert_eq!(
        checked_backup_name("20260102_030405", "aaaa").as_deref(),
        Ok("backup_20260102_030405_aaaa")
    );
    assert_eq!(
        checked_backup_name("+120260102_030405", "aaaa"),
        Err("Backup name must be a single safe component".to_string())
    );
}
