use nixfront::text::{
    chars_of, contains, is_ascii_digit, is_whitespace, join, split_on, split_whitespace, trim,
    Separator,
};

const SAMPLES: [&str; 22] = [
    "",
    " ",
    "a",
    "#",
    "a#b",
    "a#b#c",
    "##",
    "#a#",
    "  leading",
    "trailing \t",
    " \t both \r\n",
    "0   flake:nixpkgs   1.2.3   /nix/store/abc-htop-1.0",
    "one two\nthree  four\n\nfive\n",
    "tab\tseparated\twords",
    "\u{a0}no-break\u{a0}space\u{a0}",
    "\u{2003}em\u{2003}space\u{3000}",
    "\u{85}next\u{2028}line\u{2029}",
    "caf\u{e9} na\u{ef}ve \u{1f600} end",
    "\u{200b}zero\u{200b}width",
    "\u{1680}ogham\u{205f}math\u{202f}narrow",
    "\n",
    "a\n",
];

#[test]
fn whitespace_agrees_with_the_standard_library_on_every_char() {
    for u in 0..=0x10FFFFu32 {
        if let Some(c) = char::from_u32(u) {
            assert_eq!(is_whitespace(c), c.is_whitespace(), "U+{:04X}", u);
        }
    }
}

#[test]
fn whitespace_examples() {
    for c in [' ', '\t', '\n', '\r', '\u{b}', '\u{c}', '\u{85}', '\u{a0}', '\u{3000}'] {
        assert!(is_whitespace(c));
    }
    for c in ['a', '0', '#', '\u{8}', '\u{e}', '\u{200b}', '\u{180e}', '\u{feff}'] {
        assert!(!is_whitespace(c));
    }
}

#[test]
fn ascii_digit_agrees_with_the_standard_library_on_every_char() {
    for u in 0..=0x10FFFFu32 {
        if let Some(c) = char::from_u32(u) {
            assert_eq!(is_ascii_digit(c), c.is_ascii_digit(), "U+{:04X}", u);
        }
    }
}

#[test]
fn chars_of_lists_the_characters() {
    assert_eq!(chars_of(""), Vec::<char>::new());
    assert_eq!(chars_of("a#b"), vec!['a', '#', 'b']);
    for s in SAMPLES {
        assert_eq!(chars_of(s), s.chars().collect::<Vec<char>>());
    }
}

#[test]
fn split_on_char_exact() {
    assert_eq!(split_on("", Separator::Char('#')), vec![""]);
    assert_eq!(split_on("htop", Separator::Char('#')), vec!["htop"]);
    assert_eq!(split_on("nixpkgs#htop", Separator::Char('#')), vec!["nixpkgs", "htop"]);
    assert_eq!(split_on("a#b#c", Separator::Char('#')), vec!["a", "b", "c"]);
    assert_eq!(split_on("#", Separator::Char('#')), vec!["", ""]);
    assert_eq!(split_on("a##b#", Separator::Char('#')), vec!["a", "", "b", ""]);
    assert_eq!(split_on("x\ny\n", Separator::Char('\n')), vec!["x", "y", ""]);
}

#[test]
fn split_on_whitespace_keeps_empty_pieces() {
    assert_eq!(split_on("a  b", Separator::Whitespace), vec!["a", "", "b"]);
    assert_eq!(split_on(" a\t", Separator::Whitespace), vec!["", "a", ""]);
}

#[test]
fn split_on_agrees_with_the_standard_library() {
    for s in SAMPLES {
        for sep in ['#', '\n', ' ', 'a', '\u{e9}'] {
            let expected: Vec<&str> = s.split(sep).collect();
            assert_eq!(split_on(s, Separator::Char(sep)), expected, "{:?} at {:?}", s, sep);
        }
        let expected: Vec<&str> = s.split(char::is_whitespace).collect();
        assert_eq!(split_on(s, Separator::Whitespace), expected, "{:?}", s);
    }
}

#[test]
fn split_whitespace_exact() {
    assert_eq!(split_whitespace(""), Vec::<String>::new());
    assert_eq!(split_whitespace("   \t\n"), Vec::<String>::new());
    assert_eq!(split_whitespace("one"), vec!["one"]);
    assert_eq!(split_whitespace("  one   two\tthree\n"), vec!["one", "two", "three"]);
    assert_eq!(
        split_whitespace("0   flake:nixpkgs   1.2.3   /nix/store/abc-htop-1.0"),
        vec!["0", "flake:nixpkgs", "1.2.3", "/nix/store/abc-htop-1.0"]
    );
}

#[test]
fn split_whitespace_agrees_with_the_standard_library() {
    for s in SAMPLES {
        let expected: Vec<&str> = s.split_whitespace().collect();
        assert_eq!(split_whitespace(s), expected, "{:?}", s);
    }
}

#[test]
fn trim_exact() {
    assert_eq!(trim(""), "");
    assert_eq!(trim("   "), "");
    assert_eq!(trim("a"), "a");
    assert_eq!(trim("  a b  "), "a b");
    assert_eq!(trim("\t12\r\n"), "12");
    assert_eq!(trim("\u{a0}x\u{3000}"), "x");
    assert_eq!(trim("\u{200b}x"), "\u{200b}x");
}

#[test]
fn trim_agrees_with_the_standard_library() {
    for s in SAMPLES {
        assert_eq!(trim(s), s.trim(), "{:?}", s);
    }
}

#[test]
fn contains_exact() {
    assert!(contains("/nix/store/abc-htop-1.0", "htop"));
    assert!(contains("/nix/store/abc-bash-completion-2.11", "bash"));
    assert!(!contains("/nix/store/abc-htop-1.0", "bash"));
    assert!(contains("abc", ""));
    assert!(contains("", ""));
    assert!(!contains("", "a"));
    assert!(contains("abc", "abc"));
    assert!(!contains("abc", "abcd"));
    assert!(contains("aab", "ab"));
    assert!(contains("xyz", "z"));
    assert!(!contains("abab", "bb"));
    assert!(contains("caf\u{e9}s", "\u{e9}s"));
}

#[test]
fn contains_agrees_with_the_standard_library() {
    let needles = ["", "a", "ab", "#", " ", "htop", "\u{e9}", "e ", "\n", "  ", "store/abc"];
    for s in SAMPLES {
        for n in needles {
            assert_eq!(contains(s, n), s.contains(n), "{:?} in {:?}", n, s);
        }
        for t in SAMPLES {
            assert_eq!(contains(s, t), s.contains(t), "{:?} in {:?}", t, s);
        }
    }
}

#[test]
fn join_exact() {
    let none: Vec<String> = vec![];
    assert_eq!(join(&none, " "), "");
    assert_eq!(join(&vec!["a".to_string()], " "), "a");
    assert_eq!(join(&vec!["a".to_string(), "b".to_string()], " "), "a b");
    assert_eq!(
        join(&vec!["a".to_string(), "".to_string(), "c".to_string()], ", "),
        "a, , c"
    );
    assert_eq!(join(&vec!["x".to_string(), "y".to_string()], ""), "xy");
}

#[test]
fn join_undoes_split() {
    for s in SAMPLES {
        assert_eq!(join(&split_on(s, Separator::Char('#')), "#"), s);
        assert_eq!(join(&split_on(s, Separator::Char('\n')), "\n"), s);
    }
}
