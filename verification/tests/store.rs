use book_options::value::mismatch_error;
use book_options::{BookOption, BookOptions, Error};
use std::path::PathBuf;

fn options() -> BookOptions {
    BookOptions::new("/tmp").unwrap()
}

#[test]
fn set_then_get_returns_the_value_written() {
    let mut o = options();
    o.set("author", "Joan Doe").unwrap();
    assert_eq!(o.get_str("author").unwrap(), "Joan Doe");
    o.set("numbering", "2").unwrap();
    assert_eq!(o.get_i32("numbering").unwrap(), 2);
    o.set("display_toc", "true").unwrap();
    assert_eq!(o.get_bool("display_toc").unwrap(), true);
    o.set("nb_char", "'x'").unwrap();
    assert_eq!(o.get_char("nb_char").unwrap(), 'x');
    o.set("cover", "img/c.png").unwrap();
    assert_eq!(o.get_relative_path("cover").unwrap(), "img/c.png");
    assert_eq!(o.get("cover").unwrap(), &BookOption::Path(String::from("img/c.png")));
}

#[test]
fn set_replaces_an_earlier_value() {
    let mut o = options();
    o.set("title", "One").unwrap();
    o.set("title", "Two").unwrap();
    assert_eq!(o.get_str("title").unwrap(), "Two");
}

#[test]
fn strings_and_paths_are_stored_verbatim() {
    let mut o = options();
    o.set("author", "  spaced  ").unwrap();
    assert_eq!(o.get_str("author").unwrap(), "  spaced  ");
    o.set("subject", "").unwrap();
    assert_eq!(o.get_str("subject").unwrap(), "");
    o.set("cover", " a b/c ").unwrap();
    assert_eq!(o.get_relative_path("cover").unwrap(), " a b/c ");
}

#[test]
fn refused_value_leaves_the_earlier_value() {
    let mut o = options();
    let r = o.set("autoclean", "notabool");
    assert_eq!(
        r,
        Err(Error::ConfigParser("could not parse bool", String::from("autoclean:notabool")))
    );
    assert_eq!(o.get_bool("autoclean").unwrap(), true);

    let r = o.set("numbering", "foo");
    assert_eq!(r, Err(Error::ConfigParser("could not parse int", String::from("numbering:foo"))));
    assert_eq!(o.get_i32("numbering").unwrap(), 1);

    let r = o.set("nb_char", "xx");
    assert_eq!(r, Err(Error::ConfigParser("could not parse char", String::from("xx"))));
    assert_eq!(o.get_char("nb_char").unwrap(), '\u{202f}');

    let r = o.set("nb_char", "x");
    assert_eq!(r, Err(Error::ConfigParser("could not parse char", String::from("x"))));
    assert_eq!(o.get_char("nb_char").unwrap(), '\u{202f}');
}

#[test]
fn refused_value_sets_nothing_where_nothing_was_set() {
    let mut o = BookOptions::from_entries(
        &book_options::schema::parse_schema("n:int # a number").unwrap(),
        "/tmp",
    )
    .unwrap();
    assert!(o.set("n", "1.5").is_err());
    assert_eq!(o.get("n"), Err(Error::InvalidOption(String::from("option n is not present"))));
    o.set("n", "-7").unwrap();
    assert_eq!(o.get_i32("n").unwrap(), -7);
}

#[test]
fn unknown_key_is_refused() {
    let mut o = options();
    let r = o.set("autor", "John Smith");
    assert_eq!(r, Err(Error::ConfigParser("unrecognized key", String::from("autor"))));
    assert!(o.get("autor").is_err());
}

#[test]
fn defaults_match_the_schema() {
    let o = options();
    assert_eq!(o.get_str("author").unwrap(), "Anonymous");
    assert_eq!(o.get_str("title").unwrap(), "Untitled");
    assert_eq!(o.get_str("lang").unwrap(), "en");
    assert_eq!(o.get_str("zip.command").unwrap(), "zip");
    assert_eq!(o.get_i32("numbering").unwrap(), 1);
    assert_eq!(o.get_bool("display_toc").unwrap(), false);
    assert_eq!(o.get_str("toc_name").unwrap(), "Table of contents");
    assert_eq!(o.get_bool("autoclean").unwrap(), true);
    assert_eq!(o.get_bool("verbose").unwrap(), false);
    assert_eq!(o.get_bool("side_notes").unwrap(), false);
    assert_eq!(o.get_str("numbering_template").unwrap(), "{{number}}. {{title}}");
    assert_eq!(o.get_char("nb_char").unwrap(), '\u{202f}');
    assert_ne!(o.get_char("nb_char").unwrap(), ' ');
    assert_eq!(o.get("nb_char").unwrap(), &BookOption::Char('\u{202f}'));
    assert_eq!(o.get_i32("epub.version").unwrap(), 2);
    assert_eq!(o.get_bool("tex.links_as_footnotes").unwrap(), true);
    assert_eq!(o.get_str("tex.command").unwrap(), "pdflatex");
}

#[test]
fn options_without_default_are_not_set() {
    let o = options();
    for key in [
        "subject",
        "description",
        "cover",
        "output.epub",
        "output.html",
        "output.tex",
        "output.pdf",
        "output.odt",
        "html.template",
        "html.css",
        "epub.css",
        "epub.template",
        "tex.template",
    ] {
        assert_eq!(
            o.get(key),
            Err(Error::InvalidOption(format!("option {} is not present", key)))
        );
    }
}

#[test]
fn temp_dir_is_set_at_construction() {
    let o = BookOptions::new("/var/tmp").unwrap();
    assert_eq!(o.get_relative_path("temp_dir").unwrap(), "/var/tmp");
    assert!(!o.get_relative_path("temp_dir").unwrap().is_empty());
    assert_eq!(o.get("temp_dir").unwrap(), &BookOption::Path(String::from("/var/tmp")));
}

#[test]
fn get_path_joins_the_root() {
    let mut o = options();
    o.root = PathBuf::from("/books/mybook");
    o.set("cover", "img/c.png").unwrap();
    let expected = PathBuf::from("/books/mybook").join("img/c.png");
    assert_eq!(o.get_path("cover").unwrap(), expected.to_str().unwrap());
    assert_eq!(o.get_relative_path("cover").unwrap(), "img/c.png");
}

#[test]
fn get_path_on_unix_puts_a_separator() {
    if std::path::MAIN_SEPARATOR == '/' {
        let mut o = options();
        o.root = PathBuf::from("/books/mybook");
        o.set("cover", "img/c.png").unwrap();
        assert_eq!(o.get_path("cover").unwrap(), "/books/mybook/img/c.png");
    }
}

#[test]
fn set_root_changes_the_root_only() {
    let mut o = options();
    o.set("cover", "img/c.png").unwrap();
    o.set_root(PathBuf::from("/books/other"));
    assert_eq!(o.root_path(), &PathBuf::from("/books/other"));
    assert_eq!(o.root, PathBuf::from("/books/other"));
    assert_eq!(o.get_relative_path("cover").unwrap(), "img/c.png");
    assert_eq!(o.get_str("author").unwrap(), "Anonymous");
    let expected = PathBuf::from("/books/other").join("img/c.png");
    assert_eq!(o.get_path("cover").unwrap(), expected.to_str().unwrap());
    o.set("author", "Joan Doe").unwrap();
    assert_eq!(o.root_path(), &PathBuf::from("/books/other"));
}

#[test]
fn root_starts_empty() {
    let o = options();
    assert_eq!(o.root_path(), &PathBuf::new());
}

#[test]
fn get_path_with_empty_root_is_the_stored_path() {
    let mut o = options();
    o.set("cover", "img/c.png").unwrap();
    assert_eq!(o.get_path("cover").unwrap(), "img/c.png");
}

#[test]
fn get_path_fails_for_absent_and_for_other_kinds() {
    let o = options();
    assert_eq!(
        o.get_path("cover"),
        Err(Error::InvalidOption(String::from("option cover is not present")))
    );
    assert_eq!(
        o.get_path("author"),
        Err(Error::BookOption(String::from("String(\"Anonymous\") is not a path")))
    );
    assert_eq!(
        o.get_relative_path("numbering"),
        Err(Error::BookOption(String::from("Int(1) is not a path")))
    );
}

#[test]
fn joined_path_without_text_is_an_error() {
    assert_eq!(
        BookOptions::joined_path("cover", None),
        Err(Error::BookOption(String::from("'cover''s path contains invalid UTF-8 code")))
    );
    assert_eq!(BookOptions::joined_path("cover", Some("a/b")), Ok(String::from("a/b")));
}

#[test]
fn wrong_accessor_reports_the_value_and_the_kind() {
    let o = options();
    assert_eq!(
        o.get_str("numbering"),
        Err(Error::BookOption(String::from("Int(1) is not a string")))
    );
    assert_eq!(
        o.get_bool("author"),
        Err(Error::BookOption(String::from("String(\"Anonymous\") is not a bool")))
    );
    assert_eq!(
        o.get_char("autoclean"),
        Err(Error::BookOption(String::from("Bool(true) is not a char")))
    );
    assert_eq!(
        o.get_i32("nb_char"),
        Err(Error::BookOption(String::from("Char('\\u{202f}') is not an i32")))
    );
    assert_eq!(
        o.get_i32("temp_dir"),
        Err(Error::BookOption(String::from("Path(\"/tmp\") is not an i32")))
    );
}

#[test]
fn mismatch_error_joins_the_value_and_the_kind() {
    assert_eq!(
        mismatch_error(String::from("Int(1)"), "a string"),
        Error::BookOption(String::from("Int(1) is not a string"))
    );
    assert_eq!(
        mismatch_error(String::new(), ""),
        Error::BookOption(String::from(" is not "))
    );
}

#[test]
fn typed_get_of_absent_key_is_not_present() {
    let o = options();
    let absent = || Error::InvalidOption(String::from("option nothing is not present"));
    assert_eq!(o.get_str("nothing"), Err(absent()));
    assert_eq!(o.get_bool("nothing"), Err(absent()));
    assert_eq!(o.get_char("nothing"), Err(absent()));
    assert_eq!(o.get_i32("nothing"), Err(absent()));
    assert_eq!(o.get_relative_path("nothing"), Err(absent()));
    assert_eq!(o.get_path("nothing"), Err(absent()));
}

#[test]
fn char_grammar() {
    let mut o = options();
    o.set("nb_char", "' '").unwrap();
    assert_eq!(o.get_char("nb_char").unwrap(), ' ');
    o.set("nb_char", "  'a'\t").unwrap();
    assert_eq!(o.get_char("nb_char").unwrap(), 'a');
    o.set("nb_char", "'\u{a0}'").unwrap();
    assert_eq!(o.get_char("nb_char").unwrap(), '\u{a0}');
    o.set("nb_char", "'é'").unwrap();
    assert_eq!(o.get_char("nb_char").unwrap(), 'é');
    for bad in ["xx", "", "a", "'a", "a'", "''", "'ab'", "x'a'y", "'''", "\"a\"", "' 'x"] {
        assert_eq!(
            o.set("nb_char", bad),
            Err(Error::ConfigParser("could not parse char", String::from(bad)))
        );
    }
    assert_eq!(o.get_char("nb_char").unwrap(), 'é');
}

#[test]
fn bool_grammar() {
    let mut o = options();
    o.set("verbose", "true").unwrap();
    assert_eq!(o.get_bool("verbose").unwrap(), true);
    o.set("verbose", "false").unwrap();
    assert_eq!(o.get_bool("verbose").unwrap(), false);
    for bad in ["True", "TRUE", " true", "true ", "1", "0", "yes", "", "falsee"] {
        assert!(o.set("verbose", bad).is_err());
        assert_eq!(bad.parse::<bool>().is_err(), true);
    }
}

#[test]
fn int_grammar() {
    let mut o = options();
    for (raw, value) in [
        ("0", 0),
        ("2", 2),
        ("-0", 0),
        ("+17", 17),
        ("-17", -17),
        ("007", 7),
        ("2147483647", 2147483647),
        ("-2147483648", -2147483648),
        ("00000000000000000000002147483647", 2147483647),
    ] {
        o.set("numbering", raw).unwrap();
        assert_eq!(o.get_i32("numbering").unwrap(), value);
        assert_eq!(raw.parse::<i32>().unwrap(), value);
    }
    for bad in [
        "", "+", "-", "--1", "+-1", "1 ", " 1", "1.0", "0x10", "1_000", "2147483648",
        "-2147483649", "99999999999999999999999999", "١٢", "foo", "1e3",
    ] {
        assert_eq!(
            o.set("numbering", bad),
            Err(Error::ConfigParser("could not parse int", format!("numbering:{}", bad)))
        );
        assert!(bad.parse::<i32>().is_err());
    }
}
