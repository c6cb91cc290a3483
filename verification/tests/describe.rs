use book_options::describe::describe;
use book_options::schema::{parse_schema, SchemaEntry};
use book_options::{BookOptions, Error, OptionKind};

#[test]
fn plain_description_of_a_small_schema() {
    let entries = parse_schema("# One\na:str:x # first\nb:int # second\n# Two\n# Three\nc:path#third").unwrap();
    assert_eq!(
        describe(&entries, false),
        "###  One ###\n\
         - a (type: string) (default: x)  first\n\
         - b (type: integer) (default: not set)  second\n\
         \n\
         ###  Two ###\n\
         ###  Three ###\n\
         - c (type: path) (default: not set) third\n"
    );
}

#[test]
fn markdown_description_of_a_small_schema() {
    let entries = parse_schema("a:bool:true # first\n# One\nb:char:'x' # second").unwrap();
    assert_eq!(
        describe(&entries, true),
        "- **`a`**\n    - **type**: boolean\n    - **default value**: `true`\n    -  first\n\
         \n\
         ###  One ###\n\
         - **`b`**\n    - **type**: char\n    - **default value**: `'x'`\n    -  second\n"
    );
}

#[test]
fn description_of_nothing_is_empty() {
    assert_eq!(describe(&Vec::new(), true), "");
    assert_eq!(describe(&Vec::new(), false), "");
}

#[test]
fn description_names_every_kind() {
    let entries = vec![
        SchemaEntry::Definition {
            comment: String::from("c"),
            key: String::from("k"),
            kind: OptionKind::Str,
            default: None,
        },
        SchemaEntry::Definition {
            comment: String::from("c"),
            key: String::from("k"),
            kind: OptionKind::Bool,
            default: None,
        },
        SchemaEntry::Definition {
            comment: String::from("c"),
            key: String::from("k"),
            kind: OptionKind::Char,
            default: None,
        },
        SchemaEntry::Definition {
            comment: String::from("c"),
            key: String::from("k"),
            kind: OptionKind::Int,
            default: None,
        },
        SchemaEntry::Definition {
            comment: String::from("c"),
            key: String::from("k"),
            kind: OptionKind::Path,
            default: None,
        },
    ];
    assert_eq!(
        describe(&entries, false),
        "- k (type: string) (default: not set) c\n\
         - k (type: boolean) (default: not set) c\n\
         - k (type: char) (default: not set) c\n\
         - k (type: integer) (default: not set) c\n\
         - k (type: path) (default: not set) c\n"
    );
}

#[test]
fn description_begins_as_the_schema_does() {
    let plain = BookOptions::description(false).unwrap();
    assert!(plain.starts_with(
        "###  Metadata ###\n\
         - author (type: string) (default: Anonymous)  The author of the book\n\
         - title (type: string) (default: Untitled)  The title of the book\n"
    ));
    assert!(plain.ends_with(
        "\n###  LaTeX options ###\n\
         - tex.links_as_footnotes (type: boolean) (default: true)  If set to true, will add foontotes to URL of links in LaTeX/PDF output\n\
         - tex.command (type: string) (default: pdflatex)  LaTeX flavour to use for generating PDF\n\
         - tex.template (type: path) (default: not set)  Path of a LaTeX template file\n"
    ));
    let md = BookOptions::description(true).unwrap();
    assert!(md.starts_with(
        "###  Metadata ###\n\
         - **`author`**\n    - **type**: string\n    - **default value**: `Anonymous`\n    -  The author of the book\n"
    ));
}

#[test]
fn description_lists_every_option_once() {
    let entries = BookOptions::options_to_vec().unwrap();
    let plain = BookOptions::description(false).unwrap();
    let md = BookOptions::description(true).unwrap();
    let mut options = 0;
    for entry in &entries {
        if let SchemaEntry::Definition { comment, key, kind, default } = entry {
            options += 1;
            let name = match kind {
                OptionKind::Str => "string",
                OptionKind::Bool => "boolean",
                OptionKind::Char => "char",
                OptionKind::Int => "integer",
                OptionKind::Path => "path",
            };
            let shown = match default {
                Some(d) => d.as_str(),
                None => "not set",
            };
            let line = format!("- {} (type: {}) (default: {}) {}\n", key, name, shown, comment);
            assert_eq!(plain.matches(&line).count(), 1, "{}", key);
            assert_eq!(plain.matches(&format!("- {} (type: ", key)).count(), 1, "{}", key);
            let item = format!(
                "- **`{}`**\n    - **type**: {}\n    - **default value**: `{}`\n    - {}\n",
                key, name, shown, comment
            );
            assert_eq!(md.matches(&item).count(), 1, "{}", key);
            assert_eq!(md.matches(&format!("- **`{}`**\n", key)).count(), 1, "{}", key);
        }
    }
    assert_eq!(options, 29);
    assert_eq!(plain.matches(" (type: ").count(), 29);
    assert_eq!(md.matches("    - **type**: ").count(), 29);
    assert_eq!(plain.matches("### ").count(), 6);
    assert_eq!(md.matches("### ").count(), 6);
}

#[test]
fn description_shows_the_defaults_of_the_schema() {
    let plain = BookOptions::description(false).unwrap();
    for line in [
        "- lang (type: string) (default: en) ",
        "- display_toc (type: boolean) (default: false) ",
        "- numbering (type: integer) (default: 1) ",
        "- nb_char (type: char) (default: '\u{202f}') ",
        "- cover (type: path) (default: not set) ",
        "- temp_dir (type: path) (default: ) ",
    ] {
        assert_eq!(plain.matches(line).count(), 1, "{}", line);
    }
    assert!(!plain.contains("(default: ' ')"));
    let md = BookOptions::description(true).unwrap();
    assert!(md.contains(
        "- **`nb_char`**\n    - **type**: char\n    - **default value**: `'\u{202f}'`\n"
    ));
}

#[test]
fn description_separates_sections_by_one_blank_line() {
    let plain = BookOptions::description(false).unwrap();
    assert!(!plain.contains("\n\n\n"));
    assert_eq!(plain.matches("\n\n###").count(), 5);
    assert!(!plain.starts_with('\n'));
}

#[test]
fn description_is_that_of_the_parsed_schema() {
    let entries = BookOptions::options_to_vec().unwrap();
    assert_eq!(BookOptions::description(true), Ok(describe(&entries, true)));
    assert_eq!(BookOptions::description(false), Ok(describe(&entries, false)));
    assert_ne!(BookOptions::description(true), BookOptions::description(false));
    assert_ne!(BookOptions::description(true), Err(Error::InvalidOption(String::new())));
}
