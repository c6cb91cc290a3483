use book_options::text::{
    chars_of, find_sep, is_whitespace, slice_of, spells, split_on, text_of, trimmed,
};
use book_options::value::{read_bool, read_char, read_int};

fn chars(s: &str) -> Vec<char> {
    s.chars().collect()
}

const SAMPLES: [&str; 24] = [
    "",
    " ",
    "a",
    " a",
    "a ",
    "  a b  ",
    "\t\n\r a \u{b}\u{c}",
    "\u{a0}x\u{a0}",
    "\u{2003}em\u{2003}",
    "\u{3000}wide\u{3000}",
    "\u{85}next\u{85}",
    "\u{1680}\u{2028}\u{2029}\u{202f}\u{205f}x",
    "\u{200b}zero width\u{200b}",
    "\u{180e}x\u{180e}",
    "\u{feff}x",
    "a:b:c",
    ":a::b:",
    ":",
    "::",
    "no separator",
    "x#y#z",
    "#",
    "line one\nline two\n",
    "\n\nmany\n\n\nlines\n",
];

#[test]
fn whitespace_is_what_std_calls_whitespace() {
    let mut c = '\0';
    loop {
        assert_eq!(is_whitespace(c), c.is_whitespace(), "{:?}", c);
        if c == char::MAX {
            break;
        }
        c = char::from_u32(c as u32 + 1).unwrap_or('\u{e000}');
    }
}

#[test]
fn whitespace_of_chosen_characters() {
    for c in [' ', '\t', '\n', '\r', '\u{b}', '\u{c}', '\u{85}', '\u{a0}', '\u{2000}', '\u{200a}'] {
        assert!(is_whitespace(c));
    }
    for c in ['a', '0', '\'', '#', ':', '\u{8}', '\u{e}', '\u{200b}', '\u{180e}', '\u{feff}'] {
        assert!(!is_whitespace(c));
    }
}

#[test]
fn trimmed_is_what_std_trims() {
    for s in SAMPLES {
        assert_eq!(text_of(&trimmed(&chars(s))), s.trim(), "{:?}", s);
    }
}

#[test]
fn trimmed_exact() {
    assert_eq!(trimmed(&chars("  a b \t")), chars("a b"));
    assert_eq!(trimmed(&chars("   ")), chars(""));
    assert_eq!(trimmed(&chars("x")), chars("x"));
}

#[test]
fn split_is_what_std_splits() {
    for s in SAMPLES {
        for sep in [':', '#', '\n'] {
            let pieces: Vec<String> = split_on(&chars(s), sep).iter().map(text_of).collect();
            let expected: Vec<&str> = s.split(sep).collect();
            assert_eq!(pieces, expected, "{:?} on {:?}", s, sep);
        }
    }
}

#[test]
fn split_exact() {
    assert_eq!(split_on(&chars("a:b:c"), ':'), vec![chars("a"), chars("b"), chars("c")]);
    assert_eq!(split_on(&chars(""), ':'), vec![chars("")]);
    assert_eq!(split_on(&chars(":"), ':'), vec![chars(""), chars("")]);
    assert_eq!(split_on(&chars("a:"), ':'), vec![chars("a"), chars("")]);
}

#[test]
fn trimmed_lines_are_what_std_gives() {
    for s in SAMPLES {
        let ours: Vec<String> = split_on(&chars(s), '\n')
            .iter()
            .map(|l| text_of(&trimmed(l)))
            .filter(|l| !l.is_empty())
            .collect();
        let expected: Vec<&str> = s.lines().map(|l| l.trim()).filter(|l| !l.is_empty()).collect();
        assert_eq!(ours, expected, "{:?}", s);
    }
    let s = "a\r\nb\rc\n\r\nd\r";
    let ours: Vec<String> = split_on(&chars(s), '\n')
        .iter()
        .map(|l| text_of(&trimmed(l)))
        .filter(|l| !l.is_empty())
        .collect();
    let expected: Vec<&str> = s.lines().map(|l| l.trim()).filter(|l| !l.is_empty()).collect();
    assert_eq!(ours, expected);
}

#[test]
fn find_sep_finds_the_first() {
    let v = chars("ab#cd#e");
    assert_eq!(find_sep(&v, '#', 0), 2);
    assert_eq!(find_sep(&v, '#', 2), 2);
    assert_eq!(find_sep(&v, '#', 3), 5);
    assert_eq!(find_sep(&v, '#', 6), 7);
    assert_eq!(find_sep(&v, '#', 7), 7);
    assert_eq!(find_sep(&v, ':', 0), 7);
}

#[test]
fn chars_and_text_go_both_ways() {
    for s in SAMPLES {
        assert_eq!(chars_of(s), chars(s));
        assert_eq!(text_of(&chars(s)), s);
    }
    assert_eq!(chars_of("héllo"), vec!['h', 'é', 'l', 'l', 'o']);
    assert_eq!(text_of(&vec!['日', '本']), "日本");
}

#[test]
fn slice_of_takes_the_stretch() {
    let v = chars("abcdef");
    assert_eq!(slice_of(&v, 0, 6), v);
    assert_eq!(slice_of(&v, 2, 4), chars("cd"));
    assert_eq!(slice_of(&v, 3, 3), chars(""));
}

#[test]
fn spells_compares_whole_texts() {
    assert!(spells(&chars("true"), "true"));
    assert!(spells(&chars(""), ""));
    assert!(!spells(&chars("true"), "tru"));
    assert!(!spells(&chars("tru"), "true"));
    assert!(!spells(&chars("trua"), "true"));
    assert!(!spells(&chars("True"), "true"));
}

#[test]
fn read_int_is_what_std_parses() {
    for s in [
        "", "0", "-0", "+0", "1", "-1", "+1", "12", "0012", "2147483647", "2147483648",
        "-2147483648", "-2147483649", "4294967296", "+2147483647", "+2147483648",
        "18446744073709551616", "000000000000000000000000000000000001", "1a", "a1", "-", "+",
        "+-1", "-+1", "--1", " 1", "1 ", "1.0", "١", "１", "1_0", "0x1", "٣",
    ] {
        assert_eq!(read_int(&chars(s)), s.parse::<i32>().ok(), "{:?}", s);
    }
}

#[test]
fn read_int_exact() {
    assert_eq!(read_int(&chars("2")), Some(2));
    assert_eq!(read_int(&chars("-45")), Some(-45));
    assert_eq!(read_int(&chars("+45")), Some(45));
    assert_eq!(read_int(&chars("2147483647")), Some(i32::MAX));
    assert_eq!(read_int(&chars("-2147483648")), Some(i32::MIN));
    assert_eq!(read_int(&chars("2147483648")), None);
    assert_eq!(read_int(&chars("")), None);
}

#[test]
fn read_bool_is_what_std_parses() {
    for s in ["true", "false", "", "True", "FALSE", "t", "1", " true", "false ", "truefalse"] {
        assert_eq!(read_bool(&chars(s)), s.parse::<bool>().ok(), "{:?}", s);
    }
}

#[test]
fn read_char_exact() {
    assert_eq!(read_char(&chars("' '")), Some(' '));
    assert_eq!(read_char(&chars(" 'q' ")), Some('q'));
    assert_eq!(read_char(&chars("'\"'")), Some('"'));
    assert_eq!(read_char(&chars("xx")), None);
    assert_eq!(read_char(&chars("'''")), None);
    assert_eq!(read_char(&chars("''")), None);
    assert_eq!(read_char(&chars("q")), None);
    assert_eq!(read_char(&chars("x'a'y")), None);
    assert_eq!(read_char(&chars("'ab'")), None);
}
