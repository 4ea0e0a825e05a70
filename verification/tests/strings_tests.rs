use prisma_scaffold::strings::{chars_of, remove_all, split_words, string_of, trim};

const SAMPLES: [&str; 16] = [
    "",
    " ",
    "a",
    "  id   String  ",
    "\tname\tString?\t@unique\r",
    "model User {",
    "}",
    "  }  ",
    "\u{a0}wide\u{2003}gaps\u{3000}",
    "zero\u{200b}width",
    "\u{85}next\u{2028}line\u{2029}",
    "\n\n",
    "a b",
    " a",
    "a ",
    "\u{e9}t\u{e9} \u{130}",
];

#[test]
fn trim_drops_the_whitespace_around() {
    assert_eq!(trim("  id   String  "), "id   String");
    assert_eq!(trim("\t}\r"), "}");
    assert_eq!(trim("none"), "none");
    assert_eq!(trim(" \u{a0}\u{3000} "), "");
    assert_eq!(trim(""), "");
    assert_eq!(trim(" a  b "), "a  b");
}

#[test]
fn trim_agrees_with_the_standard_library() {
    for sample in SAMPLES {
        assert_eq!(trim(sample), sample.trim());
    }
}

#[test]
fn split_words_splits_at_any_whitespace() {
    assert_eq!(split_words("  id   String  "), vec!["id", "String"]);
    assert_eq!(split_words("one"), vec!["one"]);
    assert_eq!(split_words("a\u{a0}b\tc\nd"), vec!["a", "b", "c", "d"]);
    assert_eq!(split_words("zero\u{200b}width"), vec!["zero\u{200b}width"]);
    assert!(split_words("").is_empty());
    assert!(split_words(" \t ").is_empty());
}

#[test]
fn split_words_agrees_with_the_standard_library() {
    for sample in SAMPLES {
        let expected: Vec<&str> = sample.split_whitespace().collect();
        assert_eq!(split_words(sample), expected);
    }
}

#[test]
fn chars_and_strings_convert_both_ways() {
    let chars = chars_of("a\u{e9}\u{130}z");
    assert_eq!(chars, vec!['a', '\u{e9}', '\u{130}', 'z']);
    assert_eq!(string_of(&chars, 0, 4), "a\u{e9}\u{130}z");
    assert_eq!(string_of(&chars, 1, 3), "\u{e9}\u{130}");
    assert_eq!(string_of(&chars, 2, 2), "");
    assert!(chars_of("").is_empty());
}

#[test]
fn remove_all_removes_from_left_to_right() {
    assert_eq!(remove_all("@src/*", "@"), "src/*");
    assert_eq!(remove_all("src/*", "/*"), "src");
    assert_eq!(remove_all("libs/core/src/*", "*"), "libs/core/src/");
    assert_eq!(remove_all("@@a@b@", "@"), "ab");
    assert_eq!(remove_all("//**", "/*"), "/*");
    assert_eq!(remove_all("aaa", "aa"), "a");
    assert_eq!(remove_all("abab", "abab"), "");
    assert_eq!(remove_all("ab", "abc"), "ab");
    assert_eq!(remove_all("", "x"), "");
    assert_eq!(remove_all("abc", ""), "abc");
    assert_eq!(remove_all("\u{e9}t\u{e9}", "\u{e9}"), "t");
}

#[test]
fn remove_all_agrees_with_replacing_by_nothing() {
    let texts = ["@src/*", "a/*/*b", "/**/", "***", "/", "", "@a/@b/*", "x/\u{2a}y", "//*/*"];
    let patterns = ["@", "/*", "*", "/", "*/", "//", "", "@a"];
    for text in texts {
        for pattern in patterns {
            assert_eq!(remove_all(text, pattern), text.replace(pattern, ""));
        }
    }
}
