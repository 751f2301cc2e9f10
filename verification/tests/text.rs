use miyori::bytes::{contains_subslice, contains_text};
use miyori::ids::{is_rrggbb, slug_ok};
use miyori::json::{parse_json, Json};
use miyori::order::sort_strings;
use miyori::paths::{path_file_name, path_is_absolute, path_join};
use miyori::text::{
    chars_lines, chars_of, chars_split, chars_words, i64_to_string, join_strings, str_contains,
    str_to_u32, str_trim, string_of, u32_to_hex2, u64_to_dec2, u64_to_string,
};
use miyori::toml::{parse_toml, toml_string};
use std::path::Path;

const SAMPLES: [&str; 12] = [
    "",
    " ",
    "a",
    "a b",
    "  a\tb\u{a0}c\u{2003}d \n",
    "one\ntwo\r\nthree",
    "\n\n",
    "a\r\r\nb\r",
    "привет мир",
    "/a//b/../c/",
    "x=1",
    "\u{85}\u{200b}\u{3000}",
];

#[test]
fn lines_words_and_trimming_are_those_of_the_language() {
    for sample in SAMPLES {
        let chars = chars_of(sample);
        let lines: Vec<String> = chars_lines(&chars).iter().map(string_of).collect();
        assert_eq!(lines, sample.lines().collect::<Vec<_>>(), "{sample:?}");
        let words: Vec<String> = chars_words(&chars).iter().map(string_of).collect();
        assert_eq!(words, sample.split_whitespace().collect::<Vec<_>>(), "{sample:?}");
        assert_eq!(str_trim(sample), sample.trim(), "{sample:?}");
        let parts: Vec<String> = chars_split(&chars, '/').iter().map(string_of).collect();
        assert_eq!(parts, sample.split('/').collect::<Vec<_>>(), "{sample:?}");
        for part in ["", "a", "b", "\n", "мир"] {
            assert_eq!(str_contains(sample, part), sample.contains(part));
        }
    }
}

#[test]
fn numbers_are_written_and_read() {
    for n in [0u64, 7, 10, 99, 100, u64::MAX] {
        assert_eq!(u64_to_string(n), n.to_string());
        assert_eq!(u64_to_dec2(n), format!("{n:02}"));
    }
    for n in [i64::MIN, -1, 0, i64::MAX] {
        assert_eq!(i64_to_string(n), n.to_string());
    }
    for n in [0u32, 9, 15, 16, 255, 256, u32::MAX] {
        assert_eq!(u32_to_hex2(n), format!("{n:02x}"));
    }
    for raw in ["", "0", "+7", "-7", "007", "4294967295", "4294967296", "1a", " 1"] {
        assert_eq!(str_to_u32(raw), raw.parse::<u32>().ok(), "{raw:?}");
    }
}

#[test]
fn paths_are_those_of_the_language() {
    for base in ["", "/", "/a", "/a/", "a/b"] {
        for part in ["", "x", "/x", "x/y", ".."] {
            assert_eq!(
                path_join(base, part),
                Path::new(base).join(part).to_str().unwrap(),
                "{base:?} {part:?}"
            );
        }
    }
    for path in ["", "/", "a", "a/b", "/a/b/", "a/..", "..", "a/.", ".", "/a//", "a/b/."] {
        assert_eq!(
            path_file_name(path).as_deref(),
            Path::new(path).file_name().map(|s| s.to_str().unwrap()),
            "{path:?}"
        );
        assert_eq!(path_is_absolute(path), Path::new(path).is_absolute());
    }
}

#[test]
fn texts_are_joined_and_sorted() {
    let items = vec!["б".to_string(), "a".to_string(), "".to_string(), "ab".to_string()];
    assert_eq!(join_strings(&items, ", "), items.join(", "));
    let mut sorted = items.clone();
    sorted.sort();
    assert_eq!(sort_strings(items), sorted);
}

#[test]
fn bytes_are_found() {
    let hay = b"abcabd".to_vec();
    assert!(contains_subslice(&hay, b"abd"));
    assert!(!contains_subslice(&hay, b"abe"));
    assert!(contains_text(&"привет".as_bytes().to_vec(), "иве"));
    assert!(!contains_text(&vec![], "x"));
}

#[test]
fn json_is_read() {
    let v = parse_json(r#"{"a":1,"b":-2,"c":1.5,"d":"x","e":[true,null],"a":3}"#).unwrap();
    assert_eq!(v.get("b"), Some(&Json::Negative(-2)));
    assert_eq!(v.get("c"), Some(&Json::Float));
    assert_eq!(v.get("d"), Some(&Json::Str("x".to_string())));
    assert_eq!(
        v.get("e"),
        Some(&Json::Array(vec![Json::Bool(true), Json::Null]))
    );
    assert_eq!(v.get("a"), Some(&Json::Unsigned(3)));
    assert_eq!(v.get("z"), None);
    assert!(parse_json("{").is_none());
    assert_eq!(parse_json("18446744073709551615"), Some(Json::Unsigned(u64::MAX)));
}

#[test]
fn toml_is_written_and_read_back() {
    let flat = Json::Object(vec![
        ("id".to_string(), Json::Str("a \"b\"\nc".to_string())),
        ("n".to_string(), Json::Unsigned(7)),
        ("flag".to_string(), Json::Bool(false)),
    ]);
    let text = toml_string(&flat);
    assert!(text.contains("n = 7"), "{text}");
    assert_eq!(parse_toml(&text), Some(flat));
    assert!(parse_toml("это не toml {{{").is_none());
}

#[test]
fn slugs_and_colours_have_their_shapes() {
    assert!(slug_ok("kali-2") && slug_ok(&"a".repeat(32)));
    assert!(!slug_ok("") && !slug_ok("Kali") && !slug_ok("ka.li") && !slug_ok(&"a".repeat(33)));
    assert!(is_rrggbb("#AbCdEf") && !is_rrggbb("#abcde") && !is_rrggbb("#+abcde"));
}
