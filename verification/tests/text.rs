use openapi_codegen::name_map::{NameMap, NameSet};
use openapi_codegen::text::{
    chars_of, contains_text, find_in, replace_all, rsplit_once, split, starts_with, str_eq, str_lt,
    strip_prefix, strip_suffix, white_space,
};

#[test]
fn names_compare_by_code_point() {
    assert!(str_lt("", "a"));
    assert!(!str_lt("", ""));
    assert!(!str_lt("a", ""));
    assert!(str_lt("a", "b"));
    assert!(str_lt("a", "ab"));
    assert!(!str_lt("ab", "a"));
    assert!(str_lt("Z", "a"));
    assert!(str_lt("abc", "abd"));
    assert!(!str_lt("abc", "abc"));
    assert!(str_lt("z", "é"));
    assert!(str_lt("é", "漢"));
    assert!(str_lt("漢", "😀"));
    for (a, b) in [("apple", "apricot"), ("B", "a"), ("a-b", "a_b"), ("é", "e\u{301}"), ("10", "9")] {
        assert_eq!(str_lt(a, b), a < b, "{a} {b}");
        assert_eq!(str_lt(b, a), b < a, "{b} {a}");
    }
    assert!(str_eq("é", "é"));
    assert!(!str_eq("é", "e"));
    assert!(str_eq("", ""));
    assert!(!str_eq("a", "ab"));
}

#[test]
fn prefixes_and_suffixes() {
    assert!(starts_with("hello", "he"));
    assert!(starts_with("hello", ""));
    assert!(!starts_with("he", "hello"));
    assert_eq!(strip_prefix("hello", "he"), Some("llo"));
    assert_eq!(strip_prefix("hello", "hello"), Some(""));
    assert_eq!(strip_prefix("hello", "lo"), None);
    assert_eq!(strip_prefix("héllo", "hé"), Some("llo"));
    assert_eq!(strip_suffix("name.jinja", ".jinja"), Some("name"));
    assert_eq!(strip_suffix("name.jinja", ".jinj"), None);
    assert_eq!(strip_suffix("a", "aa"), None);
    assert_eq!(strip_suffix("abc", ""), Some("abc"));
    assert_eq!(rsplit_once("a.b.c", '.'), Some(("a.b", "c")));
    assert_eq!(rsplit_once("abc", '.'), None);
    assert_eq!(rsplit_once(".abc", '.'), Some(("", "abc")));
    assert_eq!(rsplit_once("abc.", '.'), Some(("abc", "")));
}

#[test]
fn splitting_keeps_empty_pieces() {
    assert_eq!(split("v1.app.list", '.'), vec!["v1", "app", "list"]);
    assert_eq!(split("", '.'), vec![""]);
    assert_eq!(split("abc", '.'), vec!["abc"]);
    assert_eq!(split(".", '.'), vec!["", ""]);
    assert_eq!(split("a..b.", '.'), vec!["a", "", "b", ""]);
    assert_eq!(split("é.漢", '.'), vec!["é", "漢"]);
}

#[test]
fn searching_and_replacing() {
    let hay = chars_of("abcabc");
    assert_eq!(find_in(&hay, &chars_of("bc"), 0), Some(1));
    assert_eq!(find_in(&hay, &chars_of("bc"), 2), Some(4));
    assert_eq!(find_in(&hay, &chars_of("bc"), 5), None);
    assert_eq!(find_in(&hay, &chars_of(""), 6), Some(6));
    assert_eq!(find_in(&hay, &chars_of(""), 7), None);
    assert_eq!(find_in(&hay, &chars_of("abcabcd"), 0), None);
    assert_eq!(find_in(&hay, &chars_of("abcabc"), 0), Some(0));
    assert!(contains_text("a\nb", "\n"));
    assert!(!contains_text("ab", "\n"));
    for (s, from, to) in [
        ("/app/{id}/msg/{id}", "{id}", "42"),
        ("aaa", "aa", "b"),
        ("aaaa", "aa", "a"),
        ("abc", "x", "y"),
        ("abc", "abc", ""),
        ("abc", "abcd", "z"),
        ("", "a", "b"),
        ("ab", "", "-"),
        ("", "", "-"),
        ("héllo wörld", "ö", "oe"),
        ("a\nb\nc", "\n", "\n    * "),
    ] {
        assert_eq!(replace_all(s, from, to), s.replace(from, to), "{s:?} {from:?} {to:?}");
    }
}

#[test]
fn white_space_is_what_the_standard_calls_so() {
    for n in 0..0x3100u32 {
        if let Some(c) = char::from_u32(n) {
            assert_eq!(white_space(c), c.is_whitespace(), "{n:#x}");
        }
    }
    assert!(!white_space('\u{FEFF}'));
    assert!(!white_space('😀'));
}

#[test]
fn name_map_keeps_names_in_order() {
    let mut m: NameMap<u32> = NameMap::new();
    assert!(m.is_empty());
    assert_eq!(m.insert("pear".to_string(), 1), None);
    assert_eq!(m.insert("apple".to_string(), 2), None);
    assert_eq!(m.insert("zebra".to_string(), 3), None);
    assert_eq!(m.insert("Banana".to_string(), 4), None);
    assert_eq!(m.insert("apple".to_string(), 5), Some(2));
    assert_eq!(m.len(), 4);
    let keys: Vec<&str> = (0..m.len()).map(|i| m.key_at(i)).collect();
    assert_eq!(keys, vec!["Banana", "apple", "pear", "zebra"]);
    assert_eq!(m.value_at(1), &5);
    assert_eq!(m.get("pear"), Some(&1));
    assert_eq!(m.get("plum"), None);
    assert!(m.contains_key("zebra"));
    assert!(!m.contains_key(""));
    assert_eq!(m.remove("pear"), Some(1));
    assert_eq!(m.remove("pear"), None);
    assert_eq!(m.pop_first(), Some(("Banana".to_string(), 4)));
    let mut other: NameMap<u32> = NameMap::new();
    other.insert("apple".to_string(), 9);
    other.insert("kiwi".to_string(), 8);
    m.extend(other);
    let all: Vec<(String, u32)> = (0..m.len()).map(|i| (m.key_at(i).to_string(), *m.value_at(i))).collect();
    assert_eq!(all, vec![("apple".to_string(), 9), ("kiwi".to_string(), 8), ("zebra".to_string(), 3)]);
    assert_eq!(m.pop_first(), Some(("apple".to_string(), 9)));
    assert_eq!(m.pop_first(), Some(("kiwi".to_string(), 8)));
    assert_eq!(m.pop_first(), Some(("zebra".to_string(), 3)));
    assert_eq!(m.pop_first(), None);
}

#[test]
fn name_set_holds_each_name_once() {
    let mut s = NameSet::new();
    assert!(s.is_empty());
    assert!(s.insert("b".to_string()));
    assert!(s.insert("a".to_string()));
    assert!(!s.insert("b".to_string()));
    assert_eq!(s.len(), 2);
    assert!(s.contains("a"));
    assert!(!s.contains("c"));
    assert_eq!(s.name_at(0), "a");
    assert_eq!(s.to_vec(), vec!["a", "b"]);
    assert!(s.remove("a"));
    assert!(!s.remove("a"));
    assert_eq!(s.pop_first(), Some("b".to_string()));
    assert_eq!(s.pop_first(), None);
    assert!(s.is_empty());
}

#[test]
fn many_names_stay_sorted() {
    let mut m: NameMap<usize> = NameMap::new();
    let mut expected: Vec<String> = Vec::new();
    let mut x: u64 = 12345;
    for i in 0..300 {
        x = x.wrapping_mul(6364136223846793005).wrapping_add(1442695040888963407);
        let name = format!("n{}", (x >> 33) % 200);
        if !expected.contains(&name) {
            expected.push(name.clone());
        }
        m.insert(name, i);
    }
    expected.sort();
    let keys: Vec<String> = (0..m.len()).map(|i| m.key_at(i).to_string()).collect();
    assert_eq!(keys, expected);
    for k in &expected {
        assert!(m.contains_key(k));
    }
}
