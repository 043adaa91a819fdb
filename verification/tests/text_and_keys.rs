use object0::blank::{is_blank, trim};
use object0::glob::{is_excluded_path, wildcard_matches, wildcard_matches_bytes};
use object0::keys::{
    file_name_of_key, join_prefix_key, normalize_prefix, normalize_slashes,
    sanitize_relative_path, strip_key_prefix,
};
use object0::text::{
    char_len, concat2, concat3, decimal, ends_with_char, from_chars, signed_decimal, skip_chars,
    starts_with, str_eq, str_lt, to_chars,
};

fn strings(items: &[&str]) -> Vec<String> {
    items.iter().map(|s| s.to_string()).collect()
}

#[test]
fn chars_round_trip() {
    let v = to_chars("héllo");
    assert_eq!(v, vec!['h', 'é', 'l', 'l', 'o']);
    assert_eq!(from_chars(&v, 1, 4), "éll");
    assert_eq!(from_chars(&v, 2, 2), "");
    assert_eq!(char_len("héllo"), 5);
}

#[test]
fn string_helpers_agree_with_std() {
    assert!(str_eq("abc", "abc"));
    assert!(!str_eq("abc", "abd"));
    assert_eq!(concat2("ab", "cd"), "abcd");
    assert_eq!(concat3("a", "/", "b"), "a/b");
    assert!(starts_with("photos/a.jpg", "photos/"));
    assert!(!starts_with("photo", "photos/"));
    assert!(starts_with("x", ""));
    assert_eq!(skip_chars("photos/a.jpg", 7), "a.jpg");
    assert!(ends_with_char("dir/", '/'));
    assert!(!ends_with_char("", '/'));
}

#[test]
fn order_is_the_order_of_str() {
    let samples = ["", "a", "A", "ab", "b", "a/b", "a-b", "é", "z", "日本"];
    for a in samples.iter() {
        for b in samples.iter() {
            assert_eq!(str_lt(a, b), a < b, "{a:?} < {b:?}");
        }
    }
}

#[test]
fn decimal_writes_numbers() {
    assert_eq!(decimal(0), "0");
    assert_eq!(decimal(7), "7");
    assert_eq!(decimal(1234567890), "1234567890");
    assert_eq!(decimal(u64::MAX), "18446744073709551615");
    assert_eq!(signed_decimal(-42), "-42");
    assert_eq!(signed_decimal(i64::MIN), "-9223372036854775808");
    assert_eq!(signed_decimal(i64::MAX), "9223372036854775807");
}

#[test]
fn trim_takes_white_space_off_both_ends() {
    assert_eq!(trim("  a b \t\n"), "a b");
    assert_eq!(trim(""), "");
    assert_eq!(trim(" \u{3000}\u{00A0} "), "");
    assert_eq!(trim("x"), "x");
    assert!(is_blank("   "));
    assert!(is_blank(""));
    assert!(!is_blank(" a "));
    for s in ["", " ", "a", " a", "a ", "\u{2003}a\u{2003}", "\u{200B}"] {
        assert_eq!(trim(s), s.trim(), "{s:?}");
    }
}

#[test]
fn wildcards_match_runs_and_single_bytes() {
    assert!(wildcard_matches("*", ""));
    assert!(wildcard_matches("*", "anything/at/all"));
    assert!(wildcard_matches("*.tmp", "a.tmp"));
    assert!(!wildcard_matches("*.tmp", "a.tmpx"));
    assert!(wildcard_matches("?.txt", "a.txt"));
    assert!(!wildcard_matches("?.txt", "ab.txt"));
    assert!(wildcard_matches("a*b*c", "aXXbYYc"));
    assert!(wildcard_matches("a*b*c", "abc"));
    assert!(!wildcard_matches("a*b*c", "aXXcYYb"));
    assert!(wildcard_matches("", ""));
    assert!(!wildcard_matches("", "a"));
    assert!(wildcard_matches("**", "x"));
    assert!(wildcard_matches("a**", "a"));
    assert!(!wildcard_matches("a?", "a"));
    assert!(wildcard_matches(".DS_Store", ".DS_Store"));
    assert!(!wildcard_matches(".DS_Store", "x.DS_Store"));
}

#[test]
fn wildcard_star_backtracks() {
    assert!(wildcard_matches("*ab", "aab"));
    assert!(wildcard_matches("*aab", "aaab"));
    assert!(wildcard_matches("a*a*a", "aaaa"));
    assert!(!wildcard_matches("a*a*a", "aa"));
    assert!(wildcard_matches("*a*b", "xaxbxab"));
    assert!(!wildcard_matches("*a*b", "xbxa"));
}

#[test]
fn wildcard_star_in_a_pattern_is_always_a_wildcard() {
    assert!(wildcard_matches("*a", "*ba"));
    assert!(wildcard_matches("*", "*"));
    assert!(wildcard_matches_bytes(b"*x", b"**x"));
}

#[test]
fn wildcard_question_mark_stands_for_one_byte() {
    assert!(wildcard_matches("??", "é"));
    assert!(!wildcard_matches("?", "é"));
}

#[test]
fn excluded_by_whole_path_or_by_last_part() {
    let patterns = strings(&[".DS_Store", "*.tmp", "node_modules/*"]);
    assert!(is_excluded_path(".DS_Store", &patterns));
    assert!(is_excluded_path("a/b/.DS_Store", &patterns));
    assert!(is_excluded_path("a/b/c.tmp", &patterns));
    assert!(is_excluded_path("node_modules/x", &patterns));
    assert!(!is_excluded_path("src/node_modules_x", &patterns));
    assert!(!is_excluded_path("a/b/c.txt", &patterns));
    assert!(!is_excluded_path("a/b/c.txt", &Vec::new()));
}

#[test]
fn exclusion_reads_backslashes_as_slashes() {
    let patterns = strings(&["build\\*"]);
    assert!(is_excluded_path("build/out.o", &patterns));
    assert!(is_excluded_path("build\\out.o", &patterns));
    let patterns = strings(&["*.log"]);
    assert!(is_excluded_path("logs\\today.log", &patterns));
}

#[test]
fn prefixes_end_in_one_slash() {
    assert_eq!(normalize_prefix(""), "");
    assert_eq!(normalize_prefix("photos"), "photos/");
    assert_eq!(normalize_prefix("photos/"), "photos/");
    assert_eq!(normalize_prefix("a/b"), "a/b/");
    assert_eq!(join_prefix_key("photos", "a.jpg"), "photos/a.jpg");
    assert_eq!(join_prefix_key("", "a.jpg"), "a.jpg");
    assert_eq!(join_prefix_key("photos/", "x/a.jpg"), "photos/x/a.jpg");
}

#[test]
fn keys_are_read_below_their_prefix() {
    assert_eq!(strip_key_prefix("photos/", "photos/a.jpg"), Some("a.jpg".to_string()));
    assert_eq!(strip_key_prefix("photos/", "photos/"), Some("".to_string()));
    assert_eq!(strip_key_prefix("photos/", "videos/a.mp4"), None);
    assert_eq!(strip_key_prefix("", "videos/a.mp4"), Some("videos/a.mp4".to_string()));
}

#[test]
fn relative_paths_must_stay_below_their_root() {
    assert_eq!(sanitize_relative_path("a/b.txt"), Some("a/b.txt".to_string()));
    assert_eq!(sanitize_relative_path("a/..b/c"), Some("a/..b/c".to_string()));
    assert_eq!(sanitize_relative_path("a/b../c"), Some("a/b../c".to_string()));
    assert_eq!(sanitize_relative_path("..."), Some("...".to_string()));
    assert_eq!(sanitize_relative_path(""), Some("".to_string()));
    assert_eq!(sanitize_relative_path("/etc/passwd"), None);
    assert_eq!(sanitize_relative_path("../x"), None);
    assert_eq!(sanitize_relative_path("a/../x"), None);
    assert_eq!(sanitize_relative_path("a/.."), None);
    assert_eq!(sanitize_relative_path(".."), None);
}

#[test]
fn file_name_is_the_last_part_of_a_key() {
    assert_eq!(file_name_of_key("photos/2024/a.jpg"), "a.jpg");
    assert_eq!(file_name_of_key("a.jpg"), "a.jpg");
    assert_eq!(file_name_of_key("photos/2024/"), "2024");
    assert_eq!(file_name_of_key("photos//"), "photos");
    assert_eq!(file_name_of_key("/"), "/");
    assert_eq!(file_name_of_key(""), "");
    for key in ["a/b/c", "a//b", "x", "x/", "/x", "//", "a/b/"] {
        let expected =
            key.split('/').filter(|part| !part.is_empty()).last().unwrap_or(key).to_string();
        assert_eq!(file_name_of_key(key), expected, "{key:?}");
    }
}

#[test]
fn parts_are_joined_with_slashes() {
    assert_eq!(normalize_slashes(&strings(&["a", "b", "c.txt"])), "a/b/c.txt");
    assert_eq!(normalize_slashes(&strings(&["c.txt"])), "c.txt");
    assert_eq!(normalize_slashes(&Vec::new()), "");
}
