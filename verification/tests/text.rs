use blipply_assistant::text::chars_of;
use blipply_assistant::text::is_whitespace;
use blipply_assistant::text::parse_usize;
use blipply_assistant::text::split;
use blipply_assistant::text::str_eq;
use blipply_assistant::text::string_of;
use blipply_assistant::text::trim;

const SAMPLES: [&str; 16] = [
    "",
    " ",
    "a",
    " a",
    "a ",
    "  a b  ",
    "\t\n x \r\n",
    "\u{a0}x\u{3000}",
    "\u{2003}\u{2028}",
    "\u{200b}x\u{200b}",
    "\u{1680}\u{180e}\u{85}",
    "x\u{feff}",
    "+",
    "a+b",
    "++",
    " Super + Shift+A ",
];

#[test]
fn whitespace_agrees_with_the_standard_library_on_every_character() {
    for code in 0u32..=0x10FFFF {
        if let Some(c) = char::from_u32(code) {
            assert_eq!(is_whitespace(c), c.is_whitespace(), "U+{:04X}", code);
        }
    }
}

#[test]
fn trim_agrees_with_the_standard_library() {
    for s in SAMPLES {
        assert_eq!(trim(s), s.trim(), "{:?}", s);
    }
    assert_eq!(trim("  hello world \n"), "hello world");
    assert_eq!(trim("\u{2003}"), "");
}

#[test]
fn split_agrees_with_the_standard_library() {
    for s in SAMPLES {
        let expected: Vec<String> = s.split('+').map(|p| p.to_string()).collect();
        assert_eq!(split(s, '+'), expected, "{:?}", s);
    }
    assert_eq!(split("a+b", '+'), vec!["a", "b"]);
    assert_eq!(split("", '+'), vec![""]);
    assert_eq!(split("+", '+'), vec!["", ""]);
    assert_eq!(split("a++b+", '+'), vec!["a", "", "b", ""]);
    assert_eq!(split("a,b", '+'), vec!["a,b"]);
}

#[test]
fn numbers_agree_with_the_standard_library() {
    let max = usize::MAX.to_string();
    let lines = [
        "0", "7", "42", "007", "+5", "+0", "+", "", "-1", "-0", "1 ", " 1", "1_000", "12a", "a12",
        "++1", "1+", "٣", "１", "99999999999999999999999999", "18446744073709551615",
        "18446744073709551616", "18446744073709551620", "4294967295", "4294967296", &max,
    ];
    for line in lines {
        assert_eq!(parse_usize(line), line.parse::<usize>().ok(), "{:?}", line);
    }
    assert_eq!(parse_usize("42"), Some(42));
    assert_eq!(parse_usize("+42"), Some(42));
    assert_eq!(parse_usize(&max), Some(usize::MAX));
    assert_eq!(parse_usize(&format!("{}0", max)), None);
}

#[test]
fn texts_compare_by_their_characters() {
    assert!(str_eq("", ""));
    assert!(str_eq("default", "default"));
    assert!(!str_eq("default", "Default"));
    assert!(!str_eq("default", "default "));
    assert!(!str_eq("a", ""));
    assert!(str_eq("\u{e9}\u{4e16}", "\u{e9}\u{4e16}"));
    assert!(!str_eq("\u{e9}", "e\u{301}"));
}

#[test]
fn characters_and_back() {
    let chars = chars_of("h\u{e9}llo");
    assert_eq!(chars, vec!['h', '\u{e9}', 'l', 'l', 'o']);
    assert_eq!(string_of(&chars, 0, 5), "h\u{e9}llo");
    assert_eq!(string_of(&chars, 1, 3), "\u{e9}l");
    assert_eq!(string_of(&chars, 2, 2), "");
    assert_eq!(chars_of(""), Vec::<char>::new());
}
