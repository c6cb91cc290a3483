use book_options::schema::{parse_schema, SchemaEntry, OPTIONS};
use book_options::{BookOptions, Error, OptionKind};

fn definition(comment: &str, key: &str, kind: OptionKind, default: Option<&str>) -> SchemaEntry {
    SchemaEntry::Definition {
        comment: String::from(comment),
        key: String::from(key),
        kind,
        default: default.map(String::from),
    }
}

#[test]
fn schema_parses_in_order() {
    let entries = BookOptions::options_to_vec().unwrap();
    assert_eq!(entries.len(), 35);
    assert_eq!(entries[0], SchemaEntry::Section(String::from(" Metadata")));
    assert_eq!(
        entries[1],
        definition(" The author of the book", "author", OptionKind::Str, Some("Anonymous"))
    );
    assert_eq!(
        entries[4],
        definition(
            " Subject of the book (used for EPUB metadata)",
            "subject",
            OptionKind::Str,
            None
        )
    );
    assert_eq!(
        entries[6],
        definition(" File name of the cover of the book", "cover", OptionKind::Path, None)
    );
    assert_eq!(entries[7], SchemaEntry::Section(String::from(" Output options")));
    assert_eq!(entries[13], SchemaEntry::Section(String::from(" Misc options")));
    assert_eq!(
        entries[15],
        definition(
            " The  maximum heading levels to number (0: no numbering, 1: only chapters, ..., 6: all)",
            "numbering",
            OptionKind::Int,
            Some("1")
        )
    );
    assert_eq!(
        entries[21],
        definition(
            " Path where to create a temporary directory (default: uses result from Rust's std::env::temp_dir())",
            "temp_dir",
            OptionKind::Path,
            Some("")
        )
    );
    assert_eq!(
        entries[22],
        definition(
            " Format of numbered titles",
            "numbering_template",
            OptionKind::Str,
            Some("{{number}}. {{title}}")
        )
    );
    assert_eq!(
        entries[23],
        definition(
            " The non-breaking character to use for autoclean when lang is set to fr",
            "nb_char",
            OptionKind::Char,
            Some("'\u{202f}'")
        )
    );
    assert_eq!(
        entries[34],
        definition(" Path of a LaTeX template file", "tex.template", OptionKind::Path, None)
    );
}

#[test]
fn schema_is_the_parse_of_its_text() {
    assert_eq!(BookOptions::options_to_vec(), parse_schema(OPTIONS));
}

#[test]
fn schema_has_every_kind_and_no_key_twice() {
    let entries = BookOptions::options_to_vec().unwrap();
    let mut keys: Vec<String> = Vec::new();
    let mut kinds: Vec<OptionKind> = Vec::new();
    for entry in entries {
        if let SchemaEntry::Definition { key, kind, .. } = entry {
            assert!(!keys.contains(&key));
            keys.push(key);
            kinds.push(kind);
        }
    }
    assert_eq!(keys.len(), 29);
    for kind in
        [OptionKind::Str, OptionKind::Bool, OptionKind::Char, OptionKind::Int, OptionKind::Path]
    {
        assert!(kinds.contains(&kind));
    }
}

#[test]
fn parse_skips_blank_lines_and_trims() {
    let entries = parse_schema("\n\n   \t\n  a : int : 3  # three  \r\n\n#h\n").unwrap();
    assert_eq!(
        entries,
        vec![
            definition(" three", "a", OptionKind::Int, Some("3")),
            SchemaEntry::Section(String::from("h")),
        ]
    );
    assert_eq!(parse_schema("").unwrap(), vec![]);
    assert_eq!(parse_schema("   \n \n").unwrap(), vec![]);
}

#[test]
fn parse_takes_every_type_token() {
    let entries =
        parse_schema("a:str#c\nb:bool#c\nc:char#c\nd:int#c\ne:path#c").unwrap();
    assert_eq!(
        entries,
        vec![
            definition("c", "a", OptionKind::Str, None),
            definition("c", "b", OptionKind::Bool, None),
            definition("c", "c", OptionKind::Char, None),
            definition("c", "d", OptionKind::Int, None),
            definition("c", "e", OptionKind::Path, None),
        ]
    );
}

#[test]
fn comment_is_all_that_follows_the_first_hash() {
    let entries = parse_schema("k:str:d # one # two : three").unwrap();
    assert_eq!(entries, vec![definition(" one # two : three", "k", OptionKind::Str, Some("d"))]);
}

#[test]
fn fields_after_the_third_are_dropped() {
    let entries = parse_schema("k:str:d:e:f # c").unwrap();
    assert_eq!(entries, vec![definition(" c", "k", OptionKind::Str, Some("d"))]);
}

#[test]
fn empty_default_is_a_default() {
    let entries = parse_schema("k:str: # c").unwrap();
    assert_eq!(entries, vec![definition(" c", "k", OptionKind::Str, Some(""))]);
}

#[test]
fn heading_keeps_what_follows_the_hash() {
    let entries = parse_schema("# Metadata\n##  x:y#z  ").unwrap();
    assert_eq!(
        entries,
        vec![
            SchemaEntry::Section(String::from(" Metadata")),
            SchemaEntry::Section(String::from("#  x:y#z")),
        ]
    );
}

#[test]
fn line_without_comment_is_a_defect() {
    assert_eq!(
        parse_schema("a:str#c\n  b:int:1  \nc:zzz#c"),
        Err(Error::Schema("option line without a comment", String::from("b:int:1")))
    );
}

#[test]
fn unrecognized_type_is_a_defect() {
    assert_eq!(
        parse_schema("a:string # c"),
        Err(Error::Schema("unrecognized type", String::from("a:string # c")))
    );
    assert_eq!(
        parse_schema("a:Str# c"),
        Err(Error::Schema("unrecognized type", String::from("a:Str# c")))
    );
    assert_eq!(parse_schema("a # c"), Err(Error::Schema("unrecognized type", String::from("a # c"))));
    assert_eq!(parse_schema("a: # c"), Err(Error::Schema("unrecognized type", String::from("a: # c"))));
}

#[test]
fn first_defect_is_reported() {
    assert_eq!(
        parse_schema("a:nope#1\nb:nope#2"),
        Err(Error::Schema("unrecognized type", String::from("a:nope#1")))
    );
}

#[test]
fn duplicate_key_is_a_defect() {
    let entries = parse_schema("a:str#c\nb:int#c\na:int#c\nb:int#c").unwrap();
    assert_eq!(
        BookOptions::from_entries(&entries, "/tmp").err(),
        Some(Error::Schema("duplicate key", String::from("a")))
    );
}

#[test]
fn invalid_default_is_a_defect() {
    let entries = parse_schema("a:int:one#c").unwrap();
    assert_eq!(
        BookOptions::from_entries(&entries, "/tmp").err(),
        Some(Error::Schema("invalid default value", String::from("a:one")))
    );
    let entries = parse_schema("a:bool:yes#c").unwrap();
    assert_eq!(
        BookOptions::from_entries(&entries, "/tmp").err(),
        Some(Error::Schema("invalid default value", String::from("a:yes")))
    );
    let entries = parse_schema("a:char:x#c").unwrap();
    assert_eq!(
        BookOptions::from_entries(&entries, "/tmp").err(),
        Some(Error::Schema("invalid default value", String::from("a:x")))
    );
}

#[test]
fn temp_dir_must_fit_its_declared_kind() {
    let entries = parse_schema("temp_dir:int:3#c").unwrap();
    assert_eq!(
        BookOptions::from_entries(&entries, "/tmp").err(),
        Some(Error::Schema("invalid default value", String::from("temp_dir:/tmp")))
    );
    let o = BookOptions::from_entries(&entries, "12").unwrap();
    assert_eq!(o.get_i32("temp_dir").unwrap(), 12);
}

#[test]
fn store_from_entries_accepts_their_keys_only() {
    let entries = parse_schema("# h\na:str:x#c\nb:int#c").unwrap();
    let mut o = BookOptions::from_entries(&entries, "/tmp").unwrap();
    assert_eq!(o.get_str("a").unwrap(), "x");
    assert!(o.get("b").is_err());
    o.set("b", "4").unwrap();
    assert_eq!(o.get_i32("b").unwrap(), 4);
    assert_eq!(
        o.set("author", "x"),
        Err(Error::ConfigParser("unrecognized key", String::from("author")))
    );
    assert!(o.get("temp_dir").is_err());
}

#[test]
fn every_option_takes_values_of_its_kind_only() {
    let entries = BookOptions::options_to_vec().unwrap();
    let mut o = BookOptions::new("/tmp").unwrap();
    for entry in &entries {
        if let SchemaEntry::Definition { key, kind, .. } = entry {
            let (good, bad) = match kind {
                OptionKind::Str => ("text", None),
                OptionKind::Path => ("a/b", None),
                OptionKind::Bool => ("true", Some("3")),
                OptionKind::Char => ("'c'", Some("true")),
                OptionKind::Int => ("3", Some("'c'")),
            };
            if let Some(bad) = bad {
                assert!(o.set(key, bad).is_err(), "{}", key);
            }
            o.set(key, good).unwrap();
            assert_eq!(o.get_str(key).is_ok(), *kind == OptionKind::Str, "{}", key);
            assert_eq!(o.get_relative_path(key).is_ok(), *kind == OptionKind::Path, "{}", key);
            assert_eq!(o.get_bool(key).is_ok(), *kind == OptionKind::Bool, "{}", key);
            assert_eq!(o.get_char(key).is_ok(), *kind == OptionKind::Char, "{}", key);
            assert_eq!(o.get_i32(key).is_ok(), *kind == OptionKind::Int, "{}", key);
        }
    }
}

#[test]
fn schema_text_holds_the_narrow_no_break_space() {
    assert!(OPTIONS.contains("nb_char:char:'\u{202f}' "));
    assert!(!OPTIONS.contains("nb_char:char:' '"));
    assert_eq!(OPTIONS.chars().filter(|c| !c.is_ascii()).count(), 1);
    assert_eq!(OPTIONS.chars().count(), 2503);
    assert_eq!(OPTIONS.len(), 2505);
}
