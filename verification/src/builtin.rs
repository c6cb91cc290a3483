//! What the schema `OPTIONS` declares for seven of its options, proved of
//! its text: `temp_dir`, which gets the directory for temporary files, and
//! one or two options of each kind. For these a store that starts from the
//! schema is known value by value, and so is its description line by line.

use crate::describe::description_of;
use crate::init::{first_fault, is_definition, temp_dir_key};
use crate::laws::{lemma_key_of_one_kind, lemma_starts_with_defaults, lemma_temp_dir_is_set};
use crate::lines::{lemma_declared_is_listed, lemma_schema_fits_lines, lists};
use crate::schema::{
    lemma_bare_option_line, lemma_option_line, lemma_schema_declares, schema_entries, EntryView,
    OPTIONS,
};
use crate::store::BookOptions;
use crate::text::{lemma_next_sep_is, lemma_trim_is, trim};
use crate::value::{digits_of, has_sign, number, parse_int, typed, OptionKind, OptionValue};
use vstd::prelude::*;

verus! {

/// Whether `entry` declares `key` as an option of kind `kind` with the
/// default `default`.
pub open spec fn is_option(
    entry: EntryView,
    key: Seq<char>,
    kind: OptionKind,
    default: Option<Seq<char>>,
) -> bool {
    entry matches EntryView::Definition { key: k, kind: d, default: v, .. } && k == key && d
        == kind && v == default
}

/// Whether one of `entries` declares `key` as an option of kind `kind` with
/// the default `default`.
pub open spec fn declares_as(
    entries: Seq<EntryView>,
    key: Seq<char>,
    kind: OptionKind,
    default: Option<Seq<char>>,
) -> bool {
    exists|i: int| 0 <= i < entries.len() && is_option(#[trigger] entries[i], key, kind, default)
}

/// What the schema `OPTIONS` declares, where it has no fault, for seven of
/// its options. Each is found in the text by the index at which its line
/// begins and the places of its colons and its `#`.
#[verifier::rlimit(100)]
#[verifier::spinoff_prover]
pub proof fn lemma_options_declare()
    requires
        schema_entries(OPTIONS@) is Ok,
    ensures
        declares_as(
            schema_entries(OPTIONS@)->Ok_0,
            "temp_dir"@,
            OptionKind::Path,
            Some(Seq::<char>::empty()),
        ),
        declares_as(
            schema_entries(OPTIONS@)->Ok_0,
            "lang"@,
            OptionKind::Str,
            Some("en"@),
        ),
        declares_as(
            schema_entries(OPTIONS@)->Ok_0,
            "numbering"@,
            OptionKind::Int,
            Some("1"@),
        ),
        declares_as(
            schema_entries(OPTIONS@)->Ok_0,
            "display_toc"@,
            OptionKind::Bool,
            Some("false"@),
        ),
        declares_as(
            schema_entries(OPTIONS@)->Ok_0,
            "autoclean"@,
            OptionKind::Bool,
            Some("true"@),
        ),
        declares_as(
            schema_entries(OPTIONS@)->Ok_0,
            "nb_char"@,
            OptionKind::Char,
            Some("'\u{202f}'"@),
        ),
        declares_as(
            schema_entries(OPTIONS@)->Ok_0,
            "cover"@,
            OptionKind::Path,
            None,
        ),
{
    // The text of `OPTIONS` once more: a proof learns what a string literal
    // holds from the literal alone.
    reveal_strlit(
        "
# Metadata
author:str:Anonymous                # The author of the book
title:str:Untitled                  # The title of the book
lang:str:en                         # The language of the book
subject:str                         # Subject of the book (used for EPUB metadata)
description:str                     # Description of the book (used for EPUB metadata)
cover:path                          # File name of the cover of the book
# Output options
output.epub:path                    # Output file name for EPUB rendering
output.html:path                    # Output file name for HTML rendering
output.tex:path                     # Output file name for LaTeX rendering
output.pdf:path                     # Output file name for PDF rendering
output.odt:path                     # Output file name for ODT rendering


# Misc options
zip.command:str:zip                 # Command to use to zip files (for EPUB/ODT)
numbering:int:1                     # The  maximum heading levels to number (0: no numbering, 1: only chapters, ..., 6: all)
display_toc:bool:false              # If true, display a table of content in the document
toc_name:str:Table of contents      # Name of the table of contents if toc is displayed in line
autoclean:bool:true                 # Toggles cleaning of input markdown (not used for LaTeX)
verbose:bool:false                  # If set to true, print warnings in Markdown processing
side_notes:bool:false               # Display footnotes as side notes in HTML/Epub
temp_dir:path:                      # Path where to create a temporary directory (default: uses result from Rust's std::env::temp_dir())
numbering_template:str:{{number}}. {{title}} # Format of numbered titles
nb_char:char:'\u{202f}'                    # The non-breaking character to use for autoclean when lang is set to fr

# HTML options
html.template:path                  # Path of an HTML template
html.css:path                       # Path of a stylesheet to use with HTML rendering

# EPUB options
epub.version:int:2                  # The EPUB version to generate
epub.css:path                       # Path of a stylesheet to use with EPUB rendering
epub.template:path                  # Path of an epub template for chapter

# LaTeX options
tex.links_as_footnotes:bool:true    # If set to true, will add foontotes to URL of links in LaTeX/PDF output
tex.command:str:pdflatex            # LaTeX flavour to use for generating PDF
tex.template:path                   # Path of a LaTeX template file
",
    );
    reveal_strlit("str");
    reveal_strlit("bool");
    reveal_strlit("char");
    reveal_strlit("int");
    reveal_strlit("path");
    reveal_strlit("temp_dir");
    reveal_strlit("lang");
    reveal_strlit("numbering");
    reveal_strlit("display_toc");
    reveal_strlit("autoclean");
    reveal_strlit("nb_char");
    reveal_strlit("cover");
    reveal_strlit("en");
    reveal_strlit("1");
    reveal_strlit("false");
    reveal_strlit("true");
    reveal_strlit("'\u{202f}'");
    assert("str"@[0] == 's' && "bool"@[0] == 'b' && "char"@[0] == 'c' && "int"@[0] == 'i' && "path"@[0]
        == 'p');
    let text = OPTIONS@;
    let entries = schema_entries(text)->Ok_0;
    assert(text.len() == 2503);
    assert(declares_as(entries, "temp_dir"@, OptionKind::Path, Some(Seq::<char>::empty()))) by {
        let line = text.subrange(1503, 1639);
        lemma_next_sep_is(text, '\n', 1503, 1639);
        lemma_trim_is(line, 0, 136);
        let i = lemma_schema_declares(text, 1503);
        lemma_option_line(line, 8, 13, 36);
        lemma_trim_is(line.subrange(0, 8), 0, 8);
        lemma_trim_is(line.subrange(9, 13), 0, 4);
        lemma_trim_is(line.subrange(14, 36), 22, 22);
        assert(trim(line.subrange(0, 8)) =~= "temp_dir"@);
        assert(trim(line.subrange(9, 13)) =~= "path"@);
        assert(trim(line.subrange(14, 36)) =~= Seq::<char>::empty());
        assert(is_option(entries[i], "temp_dir"@, OptionKind::Path, Some(Seq::<char>::empty())));
    }
    assert(declares_as(entries, "lang"@, OptionKind::Str, Some("en"@))) by {
        let line = text.subrange(133, 195);
        lemma_next_sep_is(text, '\n', 133, 195);
        lemma_trim_is(line, 0, 62);
        let i = lemma_schema_declares(text, 133);
        lemma_option_line(line, 4, 8, 36);
        lemma_trim_is(line.subrange(0, 4), 0, 4);
        lemma_trim_is(line.subrange(5, 8), 0, 3);
        lemma_trim_is(line.subrange(9, 36), 0, 2);
        assert(trim(line.subrange(0, 4)) =~= "lang"@);
        assert(trim(line.subrange(5, 8)) =~= "str"@);
        assert(trim(line.subrange(9, 36)) =~= "en"@);
        assert(is_option(entries[i], "lang"@, OptionKind::Str, Some("en"@)));
    }
    assert(declares_as(entries, "numbering"@, OptionKind::Int, Some("1"@))) by {
        let line = text.subrange(923, 1047);
        lemma_next_sep_is(text, '\n', 923, 1047);
        lemma_trim_is(line, 0, 124);
        let i = lemma_schema_declares(text, 923);
        lemma_option_line(line, 9, 13, 36);
        lemma_trim_is(line.subrange(0, 9), 0, 9);
        lemma_trim_is(line.subrange(10, 13), 0, 3);
        lemma_trim_is(line.subrange(14, 36), 0, 1);
        assert(trim(line.subrange(0, 9)) =~= "numbering"@);
        assert(trim(line.subrange(10, 13)) =~= "int"@);
        assert(trim(line.subrange(14, 36)) =~= "1"@);
        assert(is_option(entries[i], "numbering"@, OptionKind::Int, Some("1"@)));
    }
    assert(declares_as(entries, "display_toc"@, OptionKind::Bool, Some("false"@))) by {
        let line = text.subrange(1048, 1137);
        lemma_next_sep_is(text, '\n', 1048, 1137);
        lemma_trim_is(line, 0, 89);
        let i = lemma_schema_declares(text, 1048);
        lemma_option_line(line, 11, 16, 36);
        lemma_trim_is(line.subrange(0, 11), 0, 11);
        lemma_trim_is(line.subrange(12, 16), 0, 4);
        lemma_trim_is(line.subrange(17, 36), 0, 5);
        assert(trim(line.subrange(0, 11)) =~= "display_toc"@);
        assert(trim(line.subrange(12, 16)) =~= "bool"@);
        assert(trim(line.subrange(17, 36)) =~= "false"@);
        assert(is_option(entries[i], "display_toc"@, OptionKind::Bool, Some("false"@)));
    }
    assert(declares_as(entries, "autoclean"@, OptionKind::Bool, Some("true"@))) by {
        let line = text.subrange(1234, 1327);
        lemma_next_sep_is(text, '\n', 1234, 1327);
        lemma_trim_is(line, 0, 93);
        let i = lemma_schema_declares(text, 1234);
        lemma_option_line(line, 9, 14, 36);
        lemma_trim_is(line.subrange(0, 9), 0, 9);
        lemma_trim_is(line.subrange(10, 14), 0, 4);
        lemma_trim_is(line.subrange(15, 36), 0, 4);
        assert(trim(line.subrange(0, 9)) =~= "autoclean"@);
        assert(trim(line.subrange(10, 14)) =~= "bool"@);
        assert(trim(line.subrange(15, 36)) =~= "true"@);
        assert(is_option(entries[i], "autoclean"@, OptionKind::Bool, Some("true"@)));
    }
    assert(declares_as(entries, "nb_char"@, OptionKind::Char, Some("'\u{202f}'"@))) by {
        let line = text.subrange(1713, 1821);
        lemma_next_sep_is(text, '\n', 1713, 1821);
        lemma_trim_is(line, 0, 108);
        let i = lemma_schema_declares(text, 1713);
        lemma_option_line(line, 7, 12, 36);
        lemma_trim_is(line.subrange(0, 7), 0, 7);
        lemma_trim_is(line.subrange(8, 12), 0, 4);
        lemma_trim_is(line.subrange(13, 36), 0, 3);
        assert(trim(line.subrange(0, 7)) =~= "nb_char"@);
        assert(trim(line.subrange(8, 12)) =~= "char"@);
        assert(trim(line.subrange(13, 36)) =~= "'\u{202f}'"@);
        assert(is_option(entries[i], "nb_char"@, OptionKind::Char, Some("'\u{202f}'"@)));
    }
    assert(declares_as(entries, "cover"@, OptionKind::Path, None)) by {
        let line = text.subrange(366, 438);
        lemma_next_sep_is(text, '\n', 366, 438);
        lemma_trim_is(line, 0, 72);
        let i = lemma_schema_declares(text, 366);
        lemma_bare_option_line(line, 5, 36);
        lemma_trim_is(line.subrange(0, 5), 0, 5);
        lemma_trim_is(line.subrange(6, 36), 0, 4);
        assert(trim(line.subrange(0, 5)) =~= "cover"@);
        assert(trim(line.subrange(6, 36)) =~= "path"@);
        assert(is_option(entries[i], "cover"@, OptionKind::Path, None));
    }
}

/// In a store that starts from entries without a fault, an option that they
/// declare with a default holds what the default writes. The key `temp_dir`
/// is another matter: it holds the directory that the store was made with.
pub proof fn lemma_default_is_set(
    store: BookOptions,
    entries: Seq<EntryView>,
    temp_dir: Seq<char>,
    key: Seq<char>,
    kind: OptionKind,
    default: Seq<char>,
)
    requires
        store.starts_from(entries, temp_dir),
        first_fault(entries, temp_dir) is None,
        declares_as(entries, key, kind, Some(default)),
        key != temp_dir_key(),
    ensures
        store.values().contains_key(key),
        typed(kind, default) == Some(store.values()[key]),
{
    let i = choose|i: int|
        0 <= i < entries.len() && is_option(#[trigger] entries[i], key, kind, Some(default));
    lemma_starts_with_defaults(store, entries, temp_dir, i);
}

/// The values that a store starts with for the six of these options that
/// start with one.
pub open spec fn first_values(values: Map<Seq<char>, OptionValue>, temp_dir: Seq<char>) -> bool {
    &&& values.contains_key("temp_dir"@) && values["temp_dir"@] == OptionValue::Path(temp_dir)
    &&& values.contains_key("lang"@) && values["lang"@] == OptionValue::Str("en"@)
    &&& values.contains_key("numbering"@) && values["numbering"@] == OptionValue::Int(1)
    &&& values.contains_key("display_toc"@) && values["display_toc"@] == OptionValue::Bool(false)
    &&& values.contains_key("autoclean"@) && values["autoclean"@] == OptionValue::Bool(true)
    &&& values.contains_key("nb_char"@) && values["nb_char"@] == OptionValue::Char('\u{202f}')
}

/// A store that starts from the schema `OPTIONS` holds the directory that
/// it was made with under `temp_dir`, and under five more keys what the
/// schema writes for them.
pub proof fn lemma_options_first_values(store: BookOptions, temp_dir: Seq<char>)
    requires
        schema_entries(OPTIONS@) is Ok,
        first_fault(schema_entries(OPTIONS@)->Ok_0, temp_dir) is None,
        store.starts_from(schema_entries(OPTIONS@)->Ok_0, temp_dir),
    ensures
        first_values(store.values(), temp_dir),
{
    let entries = schema_entries(OPTIONS@)->Ok_0;
    lemma_options_declare();
    reveal_strlit("temp_dir");
    reveal_strlit("lang");
    reveal_strlit("numbering");
    reveal_strlit("display_toc");
    reveal_strlit("autoclean");
    reveal_strlit("nb_char");
    reveal_strlit("1");
    reveal_strlit("true");
    reveal_strlit("false");
    reveal_strlit("'\u{202f}'");
    let i = choose|i: int|
        0 <= i < entries.len() && is_option(
            #[trigger] entries[i],
            "temp_dir"@,
            OptionKind::Path,
            Some(Seq::<char>::empty()),
        );
    assert(is_definition(entries[i], temp_dir_key(), OptionKind::Path));
    lemma_temp_dir_is_set(store, entries, temp_dir, i);
    assert("lang"@.len() != temp_dir_key().len());
    assert("numbering"@.len() != temp_dir_key().len());
    assert("display_toc"@.len() != temp_dir_key().len());
    assert("autoclean"@.len() != temp_dir_key().len());
    assert("nb_char"@.len() != temp_dir_key().len());
    lemma_default_is_set(store, entries, temp_dir, "lang"@, OptionKind::Str, "en"@);
    lemma_default_is_set(store, entries, temp_dir, "numbering"@, OptionKind::Int, "1"@);
    lemma_default_is_set(store, entries, temp_dir, "display_toc"@, OptionKind::Bool, "false"@);
    lemma_default_is_set(store, entries, temp_dir, "autoclean"@, OptionKind::Bool, "true"@);
    lemma_default_is_set(store, entries, temp_dir, "nb_char"@, OptionKind::Char, "'\u{202f}'"@);
    assert(parse_int("1"@) == Some(1i32)) by {
        let raw = "1"@;
        assert(!has_sign(raw));
        assert(digits_of(raw) == raw);
        assert(number(raw.drop_last()) == 0);
        assert(number(raw) == 1);
    }
    assert("false"@.len() != "true"@.len());
    lemma_trim_is("'\u{202f}'"@, 0, 3);
    assert("'\u{202f}'"@.subrange(0, 3) =~= "'\u{202f}'"@);
}

/// Whether `text` lists the seven options as the schema `OPTIONS` declares
/// them, each on a line of its own.
pub open spec fn lists_options(text: Seq<char>, md: bool) -> bool {
    &&& lists(text, md, "temp_dir"@, OptionKind::Path, Some(Seq::<char>::empty()))
    &&& lists(text, md, "lang"@, OptionKind::Str, Some("en"@))
    &&& lists(text, md, "numbering"@, OptionKind::Int, Some("1"@))
    &&& lists(text, md, "display_toc"@, OptionKind::Bool, Some("false"@))
    &&& lists(text, md, "autoclean"@, OptionKind::Bool, Some("true"@))
    &&& lists(text, md, "nb_char"@, OptionKind::Char, Some("'\u{202f}'"@))
    &&& lists(text, md, "cover"@, OptionKind::Path, None)
}

/// The description of the schema `OPTIONS` lists the seven options as the
/// schema declares them.
pub proof fn lemma_options_are_listed(md: bool)
    requires
        schema_entries(OPTIONS@) is Ok,
    ensures
        lists_options(description_of(schema_entries(OPTIONS@)->Ok_0, md), md),
{
    let entries = schema_entries(OPTIONS@)->Ok_0;
    lemma_options_declare();
    lemma_schema_fits_lines(OPTIONS@);
    lemma_declared_is_listed(
        entries,
        md,
        "temp_dir"@,
        OptionKind::Path,
        Some(Seq::<char>::empty()),
    );
    lemma_declared_is_listed(entries, md, "lang"@, OptionKind::Str, Some("en"@));
    lemma_declared_is_listed(entries, md, "numbering"@, OptionKind::Int, Some("1"@));
    lemma_declared_is_listed(entries, md, "display_toc"@, OptionKind::Bool, Some("false"@));
    lemma_declared_is_listed(entries, md, "autoclean"@, OptionKind::Bool, Some("true"@));
    lemma_declared_is_listed(entries, md, "nb_char"@, OptionKind::Char, Some("'\u{202f}'"@));
    lemma_declared_is_listed(entries, md, "cover"@, OptionKind::Path, None);
}

/// Whether `store` takes raw values for the seven options as the kinds that
/// the schema `OPTIONS` declares them as.
pub open spec fn takes_options(store: BookOptions) -> bool {
    &&& store.kind_of("temp_dir"@) == Some(OptionKind::Path)
    &&& store.kind_of("lang"@) == Some(OptionKind::Str)
    &&& store.kind_of("numbering"@) == Some(OptionKind::Int)
    &&& store.kind_of("display_toc"@) == Some(OptionKind::Bool)
    &&& store.kind_of("autoclean"@) == Some(OptionKind::Bool)
    &&& store.kind_of("nb_char"@) == Some(OptionKind::Char)
    &&& store.kind_of("cover"@) == Some(OptionKind::Path)
}

/// A well-formed store that accepts the keys of `entries` takes raw values
/// for an option that they declare as the kind that they declare it as.
pub proof fn lemma_declared_kind(
    store: BookOptions,
    entries: Seq<EntryView>,
    key: Seq<char>,
    kind: OptionKind,
    default: Option<Seq<char>>,
)
    requires
        store.wf(),
        store.accepts(entries),
        declares_as(entries, key, kind, default),
    ensures
        store.kind_of(key) == Some(kind),
{
    let i = choose|i: int|
        0 <= i < entries.len() && is_option(#[trigger] entries[i], key, kind, default);
    lemma_key_of_one_kind(store, entries, i, kind);
}

/// A well-formed store that accepts the keys of the schema `OPTIONS` takes
/// raw values for the seven options as the kinds that the schema declares.
pub proof fn lemma_options_kinds(store: BookOptions)
    requires
        schema_entries(OPTIONS@) is Ok,
        store.wf(),
        store.accepts(schema_entries(OPTIONS@)->Ok_0),
    ensures
        takes_options(store),
{
    let entries = schema_entries(OPTIONS@)->Ok_0;
    lemma_options_declare();
    lemma_declared_kind(
        store,
        entries,
        "temp_dir"@,
        OptionKind::Path,
        Some(Seq::<char>::empty()),
    );
    lemma_declared_kind(store, entries, "lang"@, OptionKind::Str, Some("en"@));
    lemma_declared_kind(store, entries, "numbering"@, OptionKind::Int, Some("1"@));
    lemma_declared_kind(store, entries, "display_toc"@, OptionKind::Bool, Some("false"@));
    lemma_declared_kind(store, entries, "autoclean"@, OptionKind::Bool, Some("true"@));
    lemma_declared_kind(store, entries, "nb_char"@, OptionKind::Char, Some("'\u{202f}'"@));
    lemma_declared_kind(store, entries, "cover"@, OptionKind::Path, None);
}

} // verus!
