//! Texts, numbers, maps, documents and digests.
use merge_steward::fingerprint::{digest_components, push_framed, push_number};
use merge_steward::json::{number_array, object, optional_text, parse_json, parse_json_list, Json};
use merge_steward::numbers::{add_number, has_number, sorted_set};
use merge_steward::outside::{hex_digest, parse_time};
use merge_steward::path_text::encode_path_segment;
use merge_steward::text::{
    blank, contains, ends_with, eq_ignore_case, floor_bytes, is_full_sha, join, nonblank_lines,
    parse_u64, split, split_once, starts_with, str_lt, tail_after, take_chars, to_bytes,
    to_decimal, to_lower, to_upper, trim,
};
use merge_steward::text_map::TextMap;

fn owned(texts: &[&str]) -> Vec<String> {
    texts.iter().map(|text| (*text).to_owned()).collect()
}

#[test]
fn texts_agree_with_the_standard_library() {
    for text in ["", " ", "AbC", "straße ÄÖ", "a/b/c", "\u{2003}x\u{2003}", "5·unresolved"] {
        assert_eq!(to_lower(text), text.to_ascii_lowercase());
        assert_eq!(to_upper(text), text.to_ascii_uppercase());
        assert_eq!(trim(text), text.trim());
        assert_eq!(blank(text), text.trim().is_empty());
        assert_eq!(split(text, '/'), text.split('/').collect::<Vec<_>>());
        assert_eq!(
            split_once(text, '/'),
            text.split_once('/').map(|(a, b)| (a.to_owned(), b.to_owned()))
        );
        assert_eq!(to_bytes(text), text.as_bytes());
        assert_eq!(take_chars(text, 2), text.chars().take(2).collect::<String>());
        for other in ["", "A", "b/", "aBc"] {
            assert_eq!(contains(text, other), text.contains(other));
            assert_eq!(starts_with(text, other), text.starts_with(other));
            assert_eq!(ends_with(text, other), text.ends_with(other));
            assert_eq!(eq_ignore_case(text, other), text.eq_ignore_ascii_case(other));
            assert_eq!(str_lt(text, other), text < other);
        }
    }
    assert_eq!(join(&owned(&["a", "b"]), ", "), "a, b");
    assert_eq!(nonblank_lines("a\n\n \r\nb\r\n"), ["a", "b"]);
    assert_eq!(tail_after("x=1=2", "="), Some("1=2".to_owned()));
}

#[test]
fn numbers_are_written_and_read_back() {
    for n in [0, 7, 10, 4_096, u64::MAX] {
        assert_eq!(to_decimal(n), n.to_string());
        assert_eq!(parse_u64(&to_decimal(n)), Some(n));
    }
    assert_eq!(parse_u64("18446744073709551616"), None);
    assert_eq!(parse_u64("-1"), None);
    assert_eq!(parse_u64(""), None);
    assert_eq!(parse_u64("+7"), "+7".parse::<u64>().ok());
}

#[test]
fn a_text_is_cut_at_a_character() {
    assert_eq!(floor_bytes("aé", 2), "a");
    assert_eq!(floor_bytes("aé", 3), "aé");
    assert_eq!(floor_bytes("aé", usize::MAX), "aé");
    assert!(is_full_sha(&"aF0".repeat(14)[..40]));
    assert!(!is_full_sha("abc"));
}

#[test]
fn sets_of_numbers_are_increasing() {
    assert_eq!(sorted_set(&vec![3, 1, 3, 2]), [1, 2, 3]);
    let mut set: Vec<u64> = vec![1, 3];
    add_number(&mut set, 2);
    add_number(&mut set, 2);
    assert_eq!(set, [1, 2, 3]);
    assert!(has_number(&set, 3) && !has_number(&set, 4));
}

#[test]
fn a_text_map_is_walked_in_order() {
    let mut map: TextMap<u32> = TextMap::new();
    for (key, value) in [("b", 2), ("a", 1), ("c", 3), ("b", 20)] {
        map.insert(key.to_owned(), value);
    }
    assert_eq!(map.len(), 3);
    let keys: Vec<&str> = (0..map.len()).map(|i| map.key_at(i).as_str()).collect();
    assert_eq!(keys, ["a", "b", "c"]);
    assert_eq!(map.get("b"), Some(&20));
    assert_eq!(map.remove("b"), Some(20));
    assert_eq!(map.remove("b"), None);
    assert!(!map.contains_key("b"));
}

#[test]
fn documents_are_parsed_as_the_grammar_says() {
    let value = parse_json(r#"{"a":[1,-1,1.5,null,true,"x"],"a2":{"b":{"c":7}}}"#).expect("JSON");
    let items = value.array_field("a").expect("an array");
    assert_eq!(items.len(), 6);
    assert_eq!(items[0].as_u64(), Some(1));
    assert_eq!(items[1].as_u64(), None);
    assert_eq!(items[2].as_u64(), None);
    assert!(items[3].is_null());
    assert_eq!(items[4].as_bool(), Some(true));
    assert_eq!(items[5].as_str().map(String::as_str), Some("x"));
    assert_eq!(value.get3("a2", "b", "c").and_then(Json::as_u64), Some(7));
    assert!(value.get("nothing").is_none());
    assert!(parse_json("{").is_err());
    assert!(parse_json_list("{}").is_err());
    assert_eq!(parse_json_list("[1,2]").expect("a list").len(), 2);
    let built = object(vec![
        ("n".to_owned(), number_array(&vec![1, 2])),
        ("t".to_owned(), optional_text(None)),
    ]);
    assert_eq!(built.array_field("n").map(Vec::len), Some(2));
    assert!(built.get("t").is_some_and(Json::is_null));
}

#[test]
fn digests_are_those_of_the_algorithm() {
    assert_eq!(
        hex_digest(&b"abc".to_vec()),
        "ba7816bf8f01cfea414140de5dae2223b00361a396177a9cb410ff61f20015ad"
    );
    assert_eq!(
        hex_digest(&Vec::new()),
        "e3b0c44298fc1c149afbf4c8996fb92427ae41e4649b934ca495991b7852b855"
    );
}

#[test]
fn framed_texts_do_not_run_together() {
    let mut framed: Vec<u8> = Vec::new();
    push_framed(&mut framed, "ab");
    let mut expected: Vec<u8> = Vec::new();
    push_number(&mut expected, 2);
    expected.extend_from_slice(b"ab");
    assert_eq!(framed, expected);
    assert_ne!(
        digest_components(&owned(&["ab", "c"])),
        digest_components(&owned(&["a", "bc"]))
    );
    assert_ne!(digest_components(&owned(&[""])), digest_components(&Vec::new()));
}

#[test]
fn moments_are_compared_in_universal_time() {
    let early = parse_time("2026-08-27T09:00:00+02:00").expect("a moment");
    let late = parse_time("2026-08-27T07:00:00.5Z").expect("a moment");
    assert!(early.before(&late));
    assert!(!late.before(&early));
    assert_eq!(late.nanos_since(&early), 500_000_000);
    assert_eq!(parse_time("2026-08-27"), None);
}

#[test]
fn path_segments_are_told_apart() {
    assert_eq!(encode_path_segment("owner/repo"), "owner%2Frepo");
    assert_eq!(encode_path_segment("a.b-c_d~e"), "a.b-c_d~e");
    assert_eq!(encode_path_segment("é%"), "%C3%A9%25");
    assert_ne!(encode_path_segment("a/b"), encode_path_segment("a%2Fb"));
}
