use buckos_update::number::{decimal_of, parse_number};
use buckos_update::path::{join_path, leads_within, repo_of};
use buckos_update::text::{
    cat, cat3, chars_of, command, contains_char, has_prefix, has_suffix, is_hex_digit,
    is_whitespace, join, lines_of, same, same_ignoring_case, split_of, split_once_of,
    strip_prefix_of, trim_of, trim_start_of,
};

const SAMPLES: [&str; 18] = [
    "",
    " ",
    "\n",
    "\r\n",
    "a",
    "a\n",
    "a\nb",
    "a\r\nb\r\n",
    "a\r\r\nb\r",
    "\n\na\n\n",
    "  a b  ",
    "\u{a0}\u{2003}x\u{85}",
    "==a=b",
    "sign-verify = true",
    "TrUe",
    "é:ü:",
    ":",
    "\ttab\u{200b}",
];

#[test]
fn character_classes_agree_with_std() {
    for n in 0..=0x10ffffu32 {
        if let Some(c) = char::from_u32(n) {
            assert_eq!(is_whitespace(c), c.is_whitespace(), "{:x}", n);
            assert_eq!(is_hex_digit(c), c.is_ascii_hexdigit(), "{:x}", n);
        }
    }
}

#[test]
fn text_functions_agree_with_std() {
    for s in SAMPLES {
        assert_eq!(chars_of(s), s.chars().collect::<Vec<_>>());
        assert_eq!(lines_of(s), s.lines().collect::<Vec<_>>());
        assert_eq!(trim_of(s), s.trim());
        assert_eq!(trim_start_of(s), s.trim_start());
        assert_eq!(split_of(s, '='), s.split('=').collect::<Vec<_>>());
        assert_eq!(split_of(s, ':'), s.split(':').collect::<Vec<_>>());
        assert_eq!(
            split_once_of(s, ':'),
            s.split_once(':').map(|(a, b)| (a.to_string(), b.to_string()))
        );
        assert_eq!(contains_char(s, 'a'), s.contains('a'));
        for p in SAMPLES {
            assert_eq!(has_prefix(s, p), s.starts_with(p));
            assert_eq!(has_suffix(s, p), s.ends_with(p));
            assert_eq!(strip_prefix_of(s, p), s.strip_prefix(p).map(|r| r.to_string()));
            assert_eq!(same(s, p), s == p);
            assert_eq!(same_ignoring_case(s, p), s.eq_ignore_ascii_case(p));
            assert_eq!(cat(s, p), format!("{}{}", s, p));
            assert_eq!(cat3(s, "|", p), format!("{}|{}", s, p));
        }
    }
    assert!(same_ignoring_case("true", "TRUE"));
    assert!(!same_ignoring_case("É", "é"));
}

#[test]
fn commands_and_joining() {
    assert_eq!(command(&["a", "b c"]), vec!["a".to_string(), "b c".to_string()]);
    assert_eq!(join(&command(&["a", "b", "c"]), " "), "a b c");
    assert_eq!(join(&command(&["a"]), " "), "a");
    assert_eq!(join(&command(&[]), " "), "");
}

#[test]
fn paths_join_as_on_the_system() {
    for (a, b) in [
        ("/", "ostree/repo"),
        ("/mnt", "ostree/repo"),
        ("/mnt/", "x"),
        ("", "x"),
        ("/mnt", "/abs.conf"),
        ("/mnt", ""),
        ("rel", "x/y"),
    ] {
        assert_eq!(
            join_path(a, b),
            std::path::Path::new(a).join(b).display().to_string()
        );
    }
    assert_eq!(repo_of("/"), "/ostree/repo");
    assert_eq!(repo_of("/mnt"), "/mnt/ostree/repo");
}

#[test]
fn paths_lead_within_directories() {
    for path in ["/a/b/c", "/a//b/./c", "/a/b/c/d", "/a/x/../b/c", "/../a/b/c", "/a/b/c/"] {
        assert!(leads_within("/a/b", path), "{}", path);
        assert!(leads_within("/", path), "{}", path);
    }
    for path in ["/a/b", "/a/b/", "/a/b/c/..", "/a/bc", "/a", "/", "", "/a/b/../c", "/x/b/c"] {
        assert!(!leads_within("/a/b", path), "{}", path);
    }
}

#[test]
fn numbers_agree_with_std() {
    for s in [
        "", "+", "-", "0", "+7", "-1", "007", "1000", "4294967295", "4294967296",
        "99999999999999999999", "1 ", " 1", "1a", "++1", "١",
    ] {
        assert_eq!(parse_number(s), s.parse::<u32>().ok(), "{:?}", s);
    }
    for n in [0u32, 7, 9, 10, 99, 100, 1000, 65534, u32::MAX] {
        assert_eq!(decimal_of(n), n.to_string());
        assert_eq!(parse_number(&decimal_of(n)), Some(n));
    }
}
