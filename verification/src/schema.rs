//! The schema: the text that declares every option, and the parser that
//! turns schema text into an ordered sequence of entries.
//!
//! Each line of schema text that is not blank is either a heading, which
//! begins with `#`, or an option line of the form
//! `key:type[:default]#comment`.

use crate::error::{Error, ErrorView};
use crate::text::{
    chars_of, find_sep, lemma_next_sep_is, lemma_piece_of_split, next_sep, slice_of, split,
    split_from, split_on, text_of, trim, trimmed,
};
use crate::value::OptionKind;
use vstd::prelude::*;

verus! {

/// The schema of a book's options.
pub const OPTIONS: &'static str = "
# Metadata
author:str:Anonymous                # The author of the book
title:str:Untitled                  # The title of the book
lang:str:en                         # The language of the book
subject:str                         # Subject of the book (used for EPUB metadata)
description:str                     # Description of the book (used for EPUB metadata)
cover:path                          # File name of the cover of the book
# Output options
output.epub:path                    # Output file name for EPUB rendering
output.html:path                    # Output file name for HTML rendering
output.tex:path                     # Output file name for LaTeX rendering
output.pdf:path                     # Output file name for PDF rendering
output.odt:path                     # Output file name for ODT rendering


# Misc options
zip.command:str:zip                 # Command to use to zip files (for EPUB/ODT)
numbering:int:1                     # The  maximum heading levels to number (0: no numbering, 1: only chapters, ..., 6: all)
display_toc:bool:false              # If true, display a table of content in the document
toc_name:str:Table of contents      # Name of the table of contents if toc is displayed in line
autoclean:bool:true                 # Toggles cleaning of input markdown (not used for LaTeX)
verbose:bool:false                  # If set to true, print warnings in Markdown processing
side_notes:bool:false               # Display footnotes as side notes in HTML/Epub
temp_dir:path:                      # Path where to create a temporary directory (default: uses result from Rust's std::env::temp_dir())
numbering_template:str:{{number}}. {{title}} # Format of numbered titles
nb_char:char:'\u{202f}'                    # The non-breaking character to use for autoclean when lang is set to fr

# HTML options
html.template:path                  # Path of an HTML template
html.css:path                       # Path of a stylesheet to use with HTML rendering

# EPUB options
epub.version:int:2                  # The EPUB version to generate
epub.css:path                       # Path of a stylesheet to use with EPUB rendering
epub.template:path                  # Path of an epub template for chapter

# LaTeX options
tex.links_as_footnotes:bool:true    # If set to true, will add foontotes to URL of links in LaTeX/PDF output
tex.command:str:pdflatex            # LaTeX flavour to use for generating PDF
tex.template:path                   # Path of a LaTeX template file
";

/// One entry of a schema.
#[derive(Debug, PartialEq)]
pub enum SchemaEntry {
    /// A heading: free text that groups the options after it.
    Section(String),
    /// The declaration of one option.
    Definition {
        /// What the option is for.
        comment: String,
        /// The name of the option.
        key: String,
        /// The kind of value that the option holds.
        kind: OptionKind,
        /// The raw text of the value that the option starts with, if any.
        default: Option<String>,
    },
}

/// A `SchemaEntry` with the text of each field in place of the field.
pub enum EntryView {
    Section(Seq<char>),
    Definition { comment: Seq<char>, key: Seq<char>, kind: OptionKind, default: Option<Seq<char>> },
}

impl View for SchemaEntry {
    type V = EntryView;

    open spec fn view(&self) -> EntryView {
        match self {
            SchemaEntry::Section(heading) => EntryView::Section(heading@),
            SchemaEntry::Definition { comment, key, kind, default } => EntryView::Definition {
                comment: comment@,
                key: key@,
                kind: *kind,
                default: match default {
                    Some(d) => Some(d@),
                    None => None,
                },
            },
        }
    }
}

/// The views of a sequence of entries, in the same order.
pub open spec fn entry_views(entries: Seq<SchemaEntry>) -> Seq<EntryView> {
    entries.map_values(|e: SchemaEntry| e@)
}

/// What is wrong with an option line that has no `#`.
pub open spec fn no_comment() -> Seq<char> {
    "option line without a comment"@
}

/// What is wrong with an option line whose second field is none of the five
/// type tokens, or that has no second field.
pub open spec fn no_type() -> Seq<char> {
    "unrecognized type"@
}

/// The entry that a trimmed line that is not empty declares, or what is
/// wrong with the line.
///
/// A line that begins with `#` is a heading, and its text is the rest of the
/// line. Any other line is split at its first `#` into content and comment,
/// and the content at each `:` into fields, which are trimmed: the key, the
/// type token and, where there is a third field, the default.
pub open spec fn line_entry(line: Seq<char>) -> Result<EntryView, Seq<char>> {
    let hash = next_sep(line, '#', 0);
    let fields = split(line.subrange(0, hash), ':');
    if line.len() > 0 && line[0] == '#' {
        Ok(EntryView::Section(line.subrange(1, line.len() as int)))
    } else if hash >= line.len() {
        Err(no_comment())
    } else if fields.len() < 2 {
        Err(no_type())
    } else {
        match OptionKind::of_token(trim(fields[1])) {
            None => Err(no_type()),
            Some(kind) => Ok(
                EntryView::Definition {
                    comment: line.subrange(hash + 1, line.len() as int),
                    key: trim(fields[0]),
                    kind,
                    default: if fields.len() > 2 {
                        Some(trim(fields[2]))
                    } else {
                        None
                    },
                },
            ),
        }
    }
}

/// A defect of schema text: what is wrong, and the trimmed line at fault.
pub struct Fault {
    pub what: Seq<char>,
    pub line: Seq<char>,
}

/// The entries that the given lines declare, in order, or the fault of the
/// first line that has one. Lines are trimmed, and blank lines declare
/// nothing.
pub open spec fn lines_entries(lines: Seq<Seq<char>>) -> Result<Seq<EntryView>, Fault>
    decreases lines.len(),
{
    if lines.len() == 0 {
        Ok(Seq::empty())
    } else {
        let line = trim(lines.last());
        match lines_entries(lines.drop_last()) {
            Err(fault) => Err(fault),
            Ok(entries) => if line.len() == 0 {
                Ok(entries)
            } else {
                match line_entry(line) {
                    Ok(entry) => Ok(entries.push(entry)),
                    Err(what) => Err(Fault { what, line }),
                }
            },
        }
    }
}

/// The entries that schema text declares, or the fault of its first faulty
/// line.
pub open spec fn schema_entries(text: Seq<char>) -> Result<Seq<EntryView>, Fault> {
    lines_entries(split(text, '\n'))
}

/// What an option line with three fields declares. The line is given by
/// the indices of its first and second `:` and of its first `#`, which
/// follows them.
pub proof fn lemma_option_line(line: Seq<char>, first: int, second: int, hash: int)
    requires
        0 <= first < second < hash < line.len(),
        line[first] == ':',
        line[second] == ':',
        line[hash] == '#',
        forall|i: int| 0 <= i < hash ==> line[i] != '#',
        forall|i: int| 0 <= i < hash && i != first && i != second ==> line[i] != ':',
    ensures
        line_entry(line) == match OptionKind::of_token(trim(line.subrange(first + 1, second))) {
            None => Err::<EntryView, Seq<char>>(no_type()),
            Some(kind) => Ok::<EntryView, Seq<char>>(
                EntryView::Definition {
                    comment: line.subrange(hash + 1, line.len() as int),
                    key: trim(line.subrange(0, first)),
                    kind,
                    default: Some(trim(line.subrange(second + 1, hash))),
                },
            ),
        },
{
    reveal_with_fuel(split_from, 3);
    let content = line.subrange(0, hash);
    lemma_next_sep_is(line, '#', 0, hash);
    lemma_next_sep_is(content, ':', 0, first);
    lemma_next_sep_is(content, ':', first + 1, second);
    lemma_next_sep_is(content, ':', second + 1, hash);
    let fields = split(content, ':');
    assert(fields.len() == 3);
    assert(fields[0] =~= line.subrange(0, first));
    assert(fields[1] =~= line.subrange(first + 1, second));
    assert(fields[2] =~= line.subrange(second + 1, hash));
}

/// What an option line with two fields declares: an option without a
/// default. The line is given by the indices of its `:` and of its first
/// `#`, which follows it.
pub proof fn lemma_bare_option_line(line: Seq<char>, first: int, hash: int)
    requires
        0 <= first < hash < line.len(),
        line[first] == ':',
        line[hash] == '#',
        forall|i: int| 0 <= i < hash ==> line[i] != '#',
        forall|i: int| 0 <= i < hash && i != first ==> line[i] != ':',
    ensures
        line_entry(line) == match OptionKind::of_token(trim(line.subrange(first + 1, hash))) {
            None => Err::<EntryView, Seq<char>>(no_type()),
            Some(kind) => Ok::<EntryView, Seq<char>>(
                EntryView::Definition {
                    comment: line.subrange(hash + 1, line.len() as int),
                    key: trim(line.subrange(0, first)),
                    kind,
                    default: None,
                },
            ),
        },
{
    reveal_with_fuel(split_from, 2);
    let content = line.subrange(0, hash);
    lemma_next_sep_is(line, '#', 0, hash);
    lemma_next_sep_is(content, ':', 0, first);
    lemma_next_sep_is(content, ':', first + 1, hash);
    let fields = split(content, ':');
    assert(fields.len() == 2);
    assert(fields[0] =~= line.subrange(0, first));
    assert(fields[1] =~= line.subrange(first + 1, hash));
}

/// Where the lines have no fault, every line that is not blank declares one
/// of the entries.
pub proof fn lemma_line_declares(lines: Seq<Seq<char>>, k: int) -> (i: int)
    requires
        lines_entries(lines) is Ok,
        0 <= k < lines.len(),
        trim(lines[k]).len() > 0,
    ensures
        line_entry(trim(lines[k])) is Ok,
        0 <= i < lines_entries(lines)->Ok_0.len(),
        lines_entries(lines)->Ok_0[i] == line_entry(trim(lines[k]))->Ok_0,
    decreases lines.len(),
{
    let before = lines_entries(lines.drop_last())->Ok_0;
    if k == lines.len() - 1 {
        before.len() as int
    } else {
        assert(lines.drop_last()[k] == lines[k]);
        lemma_line_declares(lines.drop_last(), k)
    }
}

/// Where schema text has no fault, a line of it that is not blank declares
/// one of the entries of the schema. The line is given by the index at
/// which it begins: that of the first character of the text, or of one that
/// follows a line break.
pub proof fn lemma_schema_declares(text: Seq<char>, from: int) -> (i: int)
    requires
        schema_entries(text) is Ok,
        0 <= from <= text.len(),
        from == 0 || text[from - 1] == '\n',
        trim(text.subrange(from, next_sep(text, '\n', from))).len() > 0,
    ensures
        line_entry(trim(text.subrange(from, next_sep(text, '\n', from)))) is Ok,
        0 <= i < schema_entries(text)->Ok_0.len(),
        schema_entries(text)->Ok_0[i] == line_entry(
            trim(text.subrange(from, next_sep(text, '\n', from))),
        )->Ok_0,
{
    let k = lemma_piece_of_split(text, '\n', from);
    lemma_line_declares(split(text, '\n'), k)
}

/// A fault among the first lines is the fault of the whole.
proof fn lemma_fault_stays(lines: Seq<Seq<char>>, k: int)
    requires
        0 <= k <= lines.len(),
        lines_entries(lines.take(k)) is Err,
    ensures
        lines_entries(lines) == lines_entries(lines.take(k)),
    decreases lines.len() - k,
{
    if k < lines.len() {
        assert(lines.take(k + 1).drop_last() =~= lines.take(k));
        lemma_fault_stays(lines, k + 1);
    } else {
        assert(lines.take(k) =~= lines);
    }
}

/// The entry that a trimmed line declares.
fn parse_line(line: &Vec<char>) -> (r: Result<SchemaEntry, &'static str>)
    requires
        line@.len() > 0,
    ensures
        match r {
            Ok(entry) => line_entry(line@) == Ok::<EntryView, Seq<char>>(entry@),
            Err(what) => line_entry(line@) == Err::<EntryView, Seq<char>>(what@),
        },
{
    let n = line.len();
    if line[0] == '#' {
        return Ok(SchemaEntry::Section(text_of(&slice_of(line, 1, n))));
    }
    let hash = find_sep(line, '#', 0);
    if hash >= n {
        return Err("option line without a comment");
    }
    let fields = split_on(&slice_of(line, 0, hash), ':');
    if fields.len() < 2 {
        return Err("unrecognized type");
    }
    let kind = match OptionKind::from_token(&trimmed(&fields[1])) {
        Some(kind) => kind,
        None => {
            return Err("unrecognized type");
        },
    };
    let default = if fields.len() > 2 {
        Some(text_of(&trimmed(&fields[2])))
    } else {
        None
    };
    Ok(
        SchemaEntry::Definition {
            comment: text_of(&slice_of(line, hash + 1, n)),
            key: text_of(&trimmed(&fields[0])),
            kind,
            default,
        },
    )
}

/// Parses schema text into its entries, in the order of the text.
///
/// Fails on the first line that is neither blank, nor a heading, nor an
/// option line with a comment and one of the five type tokens; the error
/// says what is wrong and holds the line.
pub fn parse_schema(text: &str) -> (r: Result<Vec<SchemaEntry>, Error>)
    ensures
        match r {
            Ok(entries) => schema_entries(text@) == Ok::<Seq<EntryView>, Fault>(
                entry_views(entries@),
            ),
            Err(e) => schema_entries(text@) matches Err(fault) && e@ == ErrorView::Schema(
                fault.what,
                fault.line,
            ),
        },
{
    let lines = split_on(&chars_of(text), '\n');
    let ghost all = split(text@, '\n');
    let mut entries: Vec<SchemaEntry> = Vec::new();
    let mut i: usize = 0;
    assert(all.take(0) =~= Seq::<Seq<char>>::empty());
    assert(entry_views(entries@) =~= Seq::<EntryView>::empty());
    while i < lines.len()
        invariant
            i <= lines.len(),
            all == split(text@, '\n'),
            lines@.len() == all.len(),
            forall|j: int| 0 <= j < lines@.len() ==> (#[trigger] lines@[j])@ == all[j],
            lines_entries(all.take(i as int)) == Ok::<Seq<EntryView>, Fault>(
                entry_views(entries@),
            ),
        decreases lines.len() - i,
    {
        let line = trimmed(&lines[i]);
        proof {
            assert(all.take(i + 1).drop_last() =~= all.take(i as int));
            assert(all.take(i + 1).last() == all[i as int]);
        }
        if line.len() > 0 {
            match parse_line(&line) {
                Ok(entry) => {
                    proof {
                        assert(entry_views(entries@.push(entry)) =~= entry_views(entries@).push(
                            entry@,
                        ));
                    }
                    entries.push(entry);
                },
                Err(what) => {
                    proof {
                        lemma_fault_stays(all, i + 1);
                    }
                    return Err(Error::Schema(what, text_of(&line)));
                },
            }
        }
        i += 1;
    }
    assert(all.take(i as int) =~= all);
    Ok(entries)
}

} // verus!
