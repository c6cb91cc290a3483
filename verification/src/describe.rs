//! The description of the options that a schema declares, as plain text or
//! as Markdown.

use crate::builtin::{lemma_options_are_listed, lists_options};
use crate::error::{Error, ErrorView};
use crate::schema::{entry_views, schema_entries, EntryView, SchemaEntry, OPTIONS};
use crate::store::BookOptions;
use crate::value::OptionKind;
use vstd::prelude::*;

verus! {

/// What a description writes for the default of an option that has none.
pub open spec fn not_set() -> Seq<char> {
    "not set"@
}

/// What a description writes for one option: its key, the name of its
/// kind, its default or the words `not set`, and its comment. Plain text is
/// one line; Markdown is a list item with three items below it.
pub open spec fn definition_text(
    md: bool,
    key: Seq<char>,
    kind: OptionKind,
    default: Option<Seq<char>>,
    comment: Seq<char>,
) -> Seq<char> {
    let shown = match default {
        Some(d) => d,
        None => not_set(),
    };
    if md {
        "- **`"@ + key + "`**\n    - **type**: "@ + kind.name() + "\n    - **default value**: `"@
            + shown + "`\n    - "@ + comment + "\n"@
    } else {
        "- "@ + key + " (type: "@ + kind.name() + ") (default: "@ + shown + ") "@ + comment
            + "\n"@
    }
}

/// What a description writes for a heading. A blank line comes before it,
/// unless the heading is the first entry or follows another heading.
pub open spec fn heading_text(separated: bool, heading: Seq<char>) -> Seq<char> {
    if separated {
        "\n"@ + "### "@ + heading + " ###\n"@
    } else {
        "### "@ + heading + " ###\n"@
    }
}

/// What a description writes for the entry at index `i`.
pub open spec fn piece(entries: Seq<EntryView>, i: int, md: bool) -> Seq<char> {
    match entries[i] {
        EntryView::Section(heading) => heading_text(
            i > 0 && entries[i - 1] is Definition,
            heading,
        ),
        EntryView::Definition { comment, key, kind, default } => definition_text(
            md,
            key,
            kind,
            default,
            comment,
        ),
    }
}

/// The description of the first `n` entries: their pieces, one after the
/// other.
pub open spec fn described(entries: Seq<EntryView>, md: bool, n: int) -> Seq<char>
    decreases n,
{
    if n <= 0 {
        Seq::empty()
    } else {
        described(entries, md, n - 1) + piece(entries, n - 1, md)
    }
}

/// The description of all the entries.
pub open spec fn description_of(entries: Seq<EntryView>, md: bool) -> Seq<char> {
    described(entries, md, entries.len() as int)
}

/// The description grows with the number of entries described.
pub proof fn lemma_described_grows(entries: Seq<EntryView>, md: bool, m: int, n: int)
    requires
        0 <= m <= n,
    ensures
        described(entries, md, m).len() <= described(entries, md, n).len(),
        described(entries, md, n).take(described(entries, md, m).len() as int) == described(
            entries,
            md,
            m,
        ),
    decreases n - m,
{
    if m < n {
        lemma_described_grows(entries, md, m, n - 1);
        let shorter = described(entries, md, n - 1);
        let longer = described(entries, md, n);
        let k = described(entries, md, m).len() as int;
        assert(longer.take(k) =~= shorter.take(k));
    } else {
        assert(described(entries, md, n).take(described(entries, md, m).len() as int)
            =~= described(entries, md, m));
    }
}

/// A description lists every entry exactly once, in the order of the
/// schema: the piece of the entry at index `k` stands in the description
/// where the pieces of the entries before it end, and the piece of the next
/// entry begins where it ends. The piece of an option is its
/// `definition_text`, which names the key, the kind and the default.
pub proof fn lemma_description_lists_entry(entries: Seq<EntryView>, md: bool, k: int)
    requires
        0 <= k < entries.len(),
    ensures
        described(entries, md, k).len() + piece(entries, k, md).len() == described(
            entries,
            md,
            k + 1,
        ).len(),
        described(entries, md, k + 1).len() <= description_of(entries, md).len(),
        description_of(entries, md).subrange(
            described(entries, md, k).len() as int,
            described(entries, md, k + 1).len() as int,
        ) == piece(entries, k, md),
{
    let whole = description_of(entries, md);
    let before = described(entries, md, k);
    let with = described(entries, md, k + 1);
    lemma_described_grows(entries, md, k + 1, entries.len() as int);
    assert(whole.subrange(before.len() as int, with.len() as int) =~= whole.take(
        with.len() as int,
    ).subrange(before.len() as int, with.len() as int));
    assert(with.subrange(before.len() as int, with.len() as int) =~= piece(entries, k, md));
}

fn describe_definition(
    md: bool,
    key: &str,
    kind: OptionKind,
    default: &Option<String>,
    comment: &str,
) -> (r: String)
    ensures
        r@ == definition_text(
            md,
            key@,
            kind,
            match default {
                Some(d) => Some(d@),
                None => None,
            },
            comment@,
        ),
{
    let shown: &str = match default {
        Some(d) => d.as_str(),
        None => "not set",
    };
    if md {
        let mut r = "- **`".to_owned();
        r.append(key);
        r.append("`**\n    - **type**: ");
        r.append(kind.display_name());
        r.append("\n    - **default value**: `");
        r.append(shown);
        r.append("`\n    - ");
        r.append(comment);
        r.append("\n");
        r
    } else {
        let mut r = "- ".to_owned();
        r.append(key);
        r.append(" (type: ");
        r.append(kind.display_name());
        r.append(") (default: ");
        r.append(shown);
        r.append(") ");
        r.append(comment);
        r.append("\n");
        r
    }
}

fn describe_heading(separated: bool, heading: &str) -> (r: String)
    ensures
        r@ == heading_text(separated, heading@),
{
    let mut r = if separated {
        let mut r = "\n".to_owned();
        r.append("### ");
        r
    } else {
        "### ".to_owned()
    };
    r.append(heading);
    r.append(" ###\n");
    r
}

/// The description of the options that `entries` declare, as Markdown if
/// `md` is set, else as plain text.
pub fn describe(entries: &Vec<SchemaEntry>, md: bool) -> (r: String)
    ensures
        r@ == description_of(entry_views(entries@), md),
{
    let ghost views = entry_views(entries@);
    let mut out = String::new();
    let mut after_definition = false;
    let mut i: usize = 0;
    while i < entries.len()
        invariant
            i <= entries.len(),
            views == entry_views(entries@),
            after_definition == (i > 0 && views[i - 1] is Definition),
            out@ == described(views, md, i as int),
        decreases entries.len() - i,
    {
        assert(views[i as int] == entries@[i as int]@);
        match &entries[i] {
            SchemaEntry::Section(heading) => {
                let text = describe_heading(after_definition, heading.as_str());
                out.append(text.as_str());
                after_definition = false;
            },
            SchemaEntry::Definition { comment, key, kind, default } => {
                let text = describe_definition(md, key.as_str(), *kind, default, comment.as_str());
                out.append(text.as_str());
                after_definition = true;
            },
        }
        i += 1;
    }
    out
}

impl BookOptions {
    /// A description of all the options that are valid to pass to a book:
    /// those of the schema `OPTIONS`.
    ///
    /// `md` says whether the output is to be formatted as Markdown. Fails
    /// where the schema text is defective.
    pub fn description(md: bool) -> (r: Result<String, Error>)
        ensures
            match schema_entries(OPTIONS@) {
                Ok(entries) => r matches Ok(text) && text@ == description_of(entries, md),
                Err(fault) => r matches Err(e) && e@ == ErrorView::Schema(fault.what, fault.line),
            },
            r matches Ok(text) ==> lists_options(text@, md),
    {
        match Self::options_to_vec() {
            Ok(entries) => {
                proof {
                    lemma_options_are_listed(md);
                }
                Ok(describe(&entries, md))
            },
            Err(e) => Err(e),
        }
    }
}

} // verus!
