//! The lines of a description: where an option's lines stand, and that no
//! other line looks like them.

use crate::builtin::{declares_as, is_option};
use crate::init::first_fault;
use crate::laws::lemma_keys_differ;
use crate::describe::{
    definition_text, described, description_of, heading_text, lemma_description_lists_entry,
    not_set, piece,
};
use crate::schema::{line_entry, lines_entries, schema_entries, EntryView};
use crate::text::{
    lemma_next_sep, lemma_piece_is_stretch, lemma_trim_is_stretch, next_sep, split, trim,
};
use crate::value::OptionKind;
use vstd::prelude::*;

verus! {

/// Whether `s` holds no line break.
pub open spec fn no_break(s: Seq<char>) -> bool {
    forall|i: int| 0 <= i < s.len() ==> s[i] != '\n'
}

/// Whether `s` holds no colon.
pub open spec fn no_colon(s: Seq<char>) -> bool {
    forall|i: int| 0 <= i < s.len() ==> s[i] != ':'
}

/// Whether every line break of `s` has a space after it.
pub open spec fn tidy(s: Seq<char>) -> bool {
    forall|i: int|
        0 <= i < s.len() && #[trigger] s[i] == '\n' ==> i + 1 < s.len() && s[i + 1] == ' '
}

/// Whether the texts of `entry` fit on a line: none of them holds a line
/// break, and a key holds no colon. This holds of every entry that schema
/// text declares.
pub open spec fn fits_lines(entry: EntryView) -> bool {
    match entry {
        EntryView::Section(heading) => no_break(heading),
        EntryView::Definition { comment, key, default, .. } => {
            &&& no_break(comment)
            &&& no_break(key)
            &&& no_colon(key)
            &&& default matches Some(d) ==> no_break(d)
        },
    }
}

/// Whether a line begins at index `p` of `text`.
pub open spec fn is_line_start(text: Seq<char>, p: int) -> bool {
    0 <= p < text.len() && (p == 0 || text[p - 1] == '\n')
}

/// Whether `text` holds `part` from index `p` on.
pub open spec fn holds_at(text: Seq<char>, p: int, part: Seq<char>) -> bool {
    0 <= p && p + part.len() <= text.len() && text.subrange(p, p + part.len()) == part
}

proof fn lemma_no_break_add(a: Seq<char>, b: Seq<char>)
    requires
        no_break(a),
        no_break(b),
    ensures
        no_break(a + b),
{
    assert forall|i: int| 0 <= i < (a + b).len() implies (a + b)[i] != '\n' by {
        if i >= a.len() {
            assert((a + b)[i] == b[i - a.len()]);
        }
    }
}

proof fn lemma_tidy_add(a: Seq<char>, b: Seq<char>)
    requires
        tidy(a),
        tidy(b),
    ensures
        tidy(a + b),
{
    assert forall|i: int| 0 <= i < (a + b).len() && #[trigger] (a + b)[i] == '\n' implies i + 1
        < (a + b).len() && (a + b)[i + 1] == ' ' by {
        if i >= a.len() {
            assert((a + b)[i] == b[i - a.len()]);
            assert((a + b)[i + 1] == b[i + 1 - a.len()]);
        } else {
            assert((a + b)[i] == a[i]);
            assert((a + b)[i + 1] == a[i + 1]);
        }
    }
}

proof fn lemma_kind_name(kind: OptionKind)
    ensures
        no_break(kind.name()),
        no_break(not_set()),
{
    reveal_strlit("string");
    reveal_strlit("boolean");
    reveal_strlit("char");
    reveal_strlit("integer");
    reveal_strlit("path");
    reveal_strlit("not set");
}

/// The shape of what a description writes for an entry whose texts fit on
/// a line: it ends with a line break, it begins with a dash just where the
/// entry is an option, and no line that begins within it begins with a
/// dash.
pub proof fn lemma_piece_shape(entries: Seq<EntryView>, j: int, md: bool)
    requires
        0 <= j < entries.len(),
        fits_lines(entries[j]),
    ensures
        piece(entries, j, md).len() > 0,
        piece(entries, j, md).last() == '\n',
        piece(entries, j, md)[0] == '-' <==> entries[j] is Definition,
        forall|q: int|
            0 <= q < piece(entries, j, md).len() - 1 && #[trigger] piece(entries, j, md)[q] == '\n'
                ==> piece(entries, j, md)[q + 1] != '-',
{
    let pc = piece(entries, j, md);
    match entries[j] {
        EntryView::Section(heading) => {
            reveal_strlit("\n");
            reveal_strlit("### ");
            reveal_strlit(" ###\n");
            let separated = j > 0 && entries[j - 1] is Definition;
            let body = "### "@ + heading;
            lemma_no_break_add("### "@, heading);
            if separated {
                assert(pc == "\n"@ + "### "@ + heading + " ###\n"@);
                assert forall|q: int| 0 <= q < pc.len() - 1 && #[trigger] pc[q] == '\n' implies pc[q + 1]
                    != '-' by {
                    if q >= 1 {
                        if q < 1 + body.len() {
                            assert(pc[q] == body[q - 1]);
                        }
                    }
                }
            } else {
                assert(pc == "### "@ + heading + " ###\n"@);
                assert forall|q: int| 0 <= q < pc.len() - 1 && #[trigger] pc[q] == '\n' implies pc[q + 1]
                    != '-' by {
                    if q < body.len() {
                        assert(pc[q] == body[q]);
                    }
                }
            }
        },
        EntryView::Definition { comment, key, kind, default } => {
            let shown = match default {
                Some(d) => d,
                None => not_set(),
            };
            lemma_kind_name(kind);
            reveal_strlit("\n");
            if md {
                reveal_strlit("- **`");
                reveal_strlit("`**\n    - **type**: ");
                reveal_strlit("\n    - **default value**: `");
                reveal_strlit("`\n    - ");
                let b1 = "- **`"@ + key;
                let b2 = b1 + "`**\n    - **type**: "@;
                let b3 = b2 + kind.name();
                let b4 = b3 + "\n    - **default value**: `"@;
                let b5 = b4 + shown;
                let b6 = b5 + "`\n    - "@;
                let body = b6 + comment;
                lemma_tidy_add("- **`"@, key);
                lemma_tidy_add(b1, "`**\n    - **type**: "@);
                lemma_tidy_add(b2, kind.name());
                lemma_tidy_add(b3, "\n    - **default value**: `"@);
                lemma_tidy_add(b4, shown);
                lemma_tidy_add(b5, "`\n    - "@);
                lemma_tidy_add(b6, comment);
                assert(pc == body + "\n"@);
                assert forall|q: int| 0 <= q < pc.len() - 1 && #[trigger] pc[q] == '\n' implies pc[q + 1]
                    != '-' by {
                    assert(pc[q] == body[q]);
                    assert(pc[q + 1] == body[q + 1]);
                }
                assert(pc[0] == b1[0]);
            } else {
                reveal_strlit("- ");
                reveal_strlit(" (type: ");
                reveal_strlit(") (default: ");
                reveal_strlit(") ");
                let b1 = "- "@ + key;
                let b2 = b1 + " (type: "@;
                let b3 = b2 + kind.name();
                let b4 = b3 + ") (default: "@;
                let b5 = b4 + shown;
                let b6 = b5 + ") "@;
                let body = b6 + comment;
                lemma_no_break_add("- "@, key);
                lemma_no_break_add(b1, " (type: "@);
                lemma_no_break_add(b2, kind.name());
                lemma_no_break_add(b3, ") (default: "@);
                lemma_no_break_add(b4, shown);
                lemma_no_break_add(b5, ") "@);
                lemma_no_break_add(b6, comment);
                assert(pc == body + "\n"@);
                assert forall|q: int| 0 <= q < pc.len() - 1 && #[trigger] pc[q] == '\n' implies pc[q + 1]
                    != '-' by {
                    assert(pc[q] == body[q]);
                }
                assert(pc[0] == b1[0]);
            }
        },
    }
}

/// Whether the texts of every entry fit on a line.
pub open spec fn all_fit_lines(entries: Seq<EntryView>) -> bool {
    forall|i: int| 0 <= i < entries.len() ==> fits_lines(#[trigger] entries[i])
}

/// Whether no two of `entries` declare the same key.
pub open spec fn keys_differ(entries: Seq<EntryView>) -> bool {
    forall|i: int, j: int|
        0 <= i < entries.len() && 0 <= j < entries.len() && #[trigger] entries[i] is Definition
            && #[trigger] entries[j] is Definition && entries[i]->key == entries[j]->key ==> i
            == j
}

/// The index at which the description writes the entry at index `k`.
pub open spec fn place(entries: Seq<EntryView>, md: bool, k: int) -> int {
    described(entries, md, k).len() as int
}

/// The entry within whose text index `p` of the description of the first
/// `n` entries lies.
proof fn lemma_entry_at(entries: Seq<EntryView>, md: bool, n: int, p: int) -> (j: int)
    requires
        0 <= p < described(entries, md, n).len(),
    ensures
        0 <= j < n,
        place(entries, md, j) <= p < place(entries, md, j + 1),
    decreases n,
{
    if p >= described(entries, md, n - 1).len() {
        n - 1
    } else {
        lemma_entry_at(entries, md, n - 1, p)
    }
}

/// The description holds, at the place of each entry, what it writes for
/// the entry, and a line begins there.
pub proof fn lemma_entry_line(entries: Seq<EntryView>, md: bool, k: int)
    requires
        all_fit_lines(entries),
        0 <= k < entries.len(),
    ensures
        holds_at(description_of(entries, md), place(entries, md, k), piece(entries, k, md)),
        is_line_start(description_of(entries, md), place(entries, md, k)),
        place(entries, md, k + 1) == place(entries, md, k) + piece(entries, k, md).len(),
{
    let text = description_of(entries, md);
    lemma_description_lists_entry(entries, md, k);
    lemma_piece_shape(entries, k, md);
    if k > 0 {
        lemma_description_lists_entry(entries, md, k - 1);
        lemma_piece_shape(entries, k - 1, md);
        let before = piece(entries, k - 1, md);
        let p = place(entries, md, k);
        assert(text.subrange(place(entries, md, k - 1), p)[before.len() - 1] == text[p - 1]);
    }
}

/// In the description of entries whose texts fit on a line, a line that
/// begins with a dash begins at the place of an option.
pub proof fn lemma_dash_line(entries: Seq<EntryView>, md: bool, p: int) -> (j: int)
    requires
        all_fit_lines(entries),
        is_line_start(description_of(entries, md), p),
        description_of(entries, md)[p] == '-',
    ensures
        0 <= j < entries.len(),
        entries[j] is Definition,
        p == place(entries, md, j),
{
    let text = description_of(entries, md);
    let j = lemma_entry_at(entries, md, entries.len() as int, p);
    lemma_entry_line(entries, md, j);
    lemma_piece_shape(entries, j, md);
    let pc = piece(entries, j, md);
    let start = place(entries, md, j);
    let o = p - start;
    assert(text.subrange(start, start + pc.len())[o] == text[p]);
    if o > 0 {
        assert(text.subrange(start, start + pc.len())[o - 1] == text[p - 1]);
        assert(pc[o - 1] == '\n');
    }
    j
}

/// How the line of the option `key` begins in a plain description.
pub open spec fn plain_lead(key: Seq<char>) -> Seq<char> {
    "- "@ + key + " (type: "@
}

/// The first line of the option `key` in a Markdown description, with its
/// line break.
pub open spec fn markdown_lead(key: Seq<char>) -> Seq<char> {
    "- **`"@ + key + "`**\n"@
}

/// What a description writes for an option begins with the lead of its key.
proof fn lemma_piece_lead(entries: Seq<EntryView>, j: int, md: bool)
    requires
        0 <= j < entries.len(),
        entries[j] is Definition,
    ensures
        holds_at(
            piece(entries, j, md),
            0,
            if md {
                markdown_lead(entries[j]->key)
            } else {
                plain_lead(entries[j]->key)
            },
        ),
{
    let pc = piece(entries, j, md);
    let key = entries[j]->key;
    if md {
        reveal_strlit("`**\n    - **type**: ");
        reveal_strlit("`**\n");
        let lead = markdown_lead(key);
        let b2 = "- **`"@ + key + "`**\n    - **type**: "@;
        assert(b2.subrange(0, lead.len() as int) =~= lead);
        assert(pc.subrange(0, lead.len() as int) =~= b2.subrange(0, lead.len() as int));
    } else {
        let lead = plain_lead(key);
        assert(pc.subrange(0, lead.len() as int) =~= lead);
    }
}

/// Two keys without a colon whose plain leads stand at one place are one
/// key.
proof fn lemma_plain_leads_agree(text: Seq<char>, p: int, a: Seq<char>, b: Seq<char>)
    requires
        holds_at(text, p, plain_lead(a)),
        holds_at(text, p, plain_lead(b)),
        no_colon(a),
        no_colon(b),
        a.len() <= b.len(),
    ensures
        a == b,
{
    reveal_strlit("- ");
    reveal_strlit(" (type: ");
    let x = plain_lead(a);
    let y = plain_lead(b);
    let t = " (type: "@;
    assert forall|i: int| 0 <= i < x.len() implies x[i] == y[i] by {
        assert(text.subrange(p, p + x.len())[i] == text[p + i]);
        assert(text.subrange(p, p + y.len())[i] == text[p + i]);
    }
    let n: int = a.len() as int;
    let m: int = b.len() - a.len();
    if m == 0 {
        assert forall|i: int| 0 <= i < a.len() implies a[i] == b[i] by {
            assert(x[2 + i] == a[i]);
            assert(y[2 + i] == b[i]);
        }
        assert(a =~= b);
    } else if m >= 7 {
        assert(x[n + 8] == t[6]);
        assert(y[n + 8] == b[n + 6]);
    } else {
        assert(x[n + m + 2] == t[m]);
        assert(y[n + m + 2] == t[0]);
    }
}

/// Two keys without a line break whose Markdown leads stand at one place
/// are one key.
proof fn lemma_markdown_leads_agree(text: Seq<char>, p: int, a: Seq<char>, b: Seq<char>)
    requires
        holds_at(text, p, markdown_lead(a)),
        holds_at(text, p, markdown_lead(b)),
        no_break(a),
        no_break(b),
        a.len() <= b.len(),
    ensures
        a == b,
{
    reveal_strlit("- **`");
    reveal_strlit("`**\n");
    let x = markdown_lead(a);
    let y = markdown_lead(b);
    let t = "`**\n"@;
    assert forall|i: int| 0 <= i < x.len() implies x[i] == y[i] by {
        assert(text.subrange(p, p + x.len())[i] == text[p + i]);
        assert(text.subrange(p, p + y.len())[i] == text[p + i]);
    }
    let n: int = a.len() as int;
    let m: int = b.len() - a.len();
    assert(x[n + 8] == t[3]);
    if m == 0 {
        assert forall|i: int| 0 <= i < a.len() implies a[i] == b[i] by {
            assert(x[5 + i] == a[i]);
            assert(y[5 + i] == b[i]);
        }
        assert(a =~= b);
    } else if m > 3 {
        assert(y[n + 8] == b[n + 3]);
    } else {
        assert(y[n + 8] == t[3 - m]);
    }
}

/// In a plain description, just one line begins as the line of an option
/// does: with a dash, the key and the opening of its type. It is the line
/// at the place of the option, and it is what `definition_text` writes.
///
/// This holds of entries whose texts fit on a line and whose keys differ.
pub proof fn lemma_plain_line_of_key(entries: Seq<EntryView>, k: int, p: int)
    requires
        all_fit_lines(entries),
        keys_differ(entries),
        0 <= k < entries.len(),
        entries[k] is Definition,
    ensures
        is_line_start(description_of(entries, false), place(entries, false, k)),
        holds_at(description_of(entries, false), place(entries, false, k), piece(entries, k, false)),
        holds_at(
            description_of(entries, false),
            place(entries, false, k),
            plain_lead(entries[k]->key),
        ),
        is_line_start(description_of(entries, false), p) && holds_at(
            description_of(entries, false),
            p,
            plain_lead(entries[k]->key),
        ) ==> p == place(entries, false, k),
{
    let text = description_of(entries, false);
    let key = entries[k]->key;
    lemma_entry_line(entries, false, k);
    lemma_piece_lead(entries, k, false);
    lemma_part_of_part(text, place(entries, false, k), piece(entries, k, false), plain_lead(key));
    if is_line_start(text, p) && holds_at(text, p, plain_lead(key)) {
        reveal_strlit("- ");
        assert(text.subrange(p, p + plain_lead(key).len())[0] == text[p]);
        assert(plain_lead(key)[0] == '-');
        let j = lemma_dash_line(entries, false, p);
        lemma_entry_line(entries, false, j);
        lemma_piece_lead(entries, j, false);
        let other = entries[j]->key;
        lemma_part_of_part(text, p, piece(entries, j, false), plain_lead(other));
        if key.len() <= other.len() {
            lemma_plain_leads_agree(text, p, key, other);
        } else {
            lemma_plain_leads_agree(text, p, other, key);
        }
    }
}

/// In a Markdown description, just one line is the first line of an option:
/// a dash and the key, marked as code in bold. It is the line at the place
/// of the option, and what `definition_text` writes begins with it.
///
/// This holds of entries whose texts fit on a line and whose keys differ.
pub proof fn lemma_markdown_line_of_key(entries: Seq<EntryView>, k: int, p: int)
    requires
        all_fit_lines(entries),
        keys_differ(entries),
        0 <= k < entries.len(),
        entries[k] is Definition,
    ensures
        is_line_start(description_of(entries, true), place(entries, true, k)),
        holds_at(description_of(entries, true), place(entries, true, k), piece(entries, k, true)),
        holds_at(
            description_of(entries, true),
            place(entries, true, k),
            markdown_lead(entries[k]->key),
        ),
        is_line_start(description_of(entries, true), p) && holds_at(
            description_of(entries, true),
            p,
            markdown_lead(entries[k]->key),
        ) ==> p == place(entries, true, k),
{
    let text = description_of(entries, true);
    let key = entries[k]->key;
    lemma_entry_line(entries, true, k);
    lemma_piece_lead(entries, k, true);
    lemma_part_of_part(text, place(entries, true, k), piece(entries, k, true), markdown_lead(key));
    if is_line_start(text, p) && holds_at(text, p, markdown_lead(key)) {
        reveal_strlit("- **`");
        assert(text.subrange(p, p + markdown_lead(key).len())[0] == text[p]);
        assert(markdown_lead(key)[0] == '-');
        let j = lemma_dash_line(entries, true, p);
        lemma_entry_line(entries, true, j);
        lemma_piece_lead(entries, j, true);
        let other = entries[j]->key;
        lemma_part_of_part(text, p, piece(entries, j, true), markdown_lead(other));
        if key.len() <= other.len() {
            lemma_markdown_leads_agree(text, p, key, other);
        } else {
            lemma_markdown_leads_agree(text, p, other, key);
        }
    }
}

/// What begins a part of the text stands where the part stands.
proof fn lemma_part_of_part(text: Seq<char>, p: int, part: Seq<char>, lead: Seq<char>)
    requires
        holds_at(text, p, part),
        holds_at(part, 0, lead),
    ensures
        holds_at(text, p, lead),
{
    assert(text.subrange(p, p + lead.len()) =~= text.subrange(p, p + part.len()).subrange(
        0,
        lead.len() as int,
    ));
}

/// A stretch of a text without line breaks holds none, and likewise for
/// colons.
proof fn lemma_stretch_keeps(s: Seq<char>, a: int, b: int)
    requires
        0 <= a <= b <= s.len(),
    ensures
        no_break(s) ==> no_break(s.subrange(a, b)),
        no_colon(s) ==> no_colon(s.subrange(a, b)),
{
}

/// A trimmed field of a text without line breaks holds no line break and no
/// colon.
proof fn lemma_field_fits(content: Seq<char>, k: int)
    requires
        no_break(content),
        0 <= k < split(content, ':').len(),
    ensures
        no_break(trim(split(content, ':')[k])),
        no_colon(trim(split(content, ':')[k])),
{
    let field = split(content, ':')[k];
    let (a, b) = lemma_piece_is_stretch(content, ':', k);
    assert(no_colon(field));
    lemma_stretch_keeps(content, a, b);
    let (c, d) = lemma_trim_is_stretch(field);
    lemma_stretch_keeps(field, c, d);
}

/// The texts of an entry that a line declares fit on a line.
proof fn lemma_line_entry_fits(line: Seq<char>)
    requires
        no_break(line),
        line_entry(line) is Ok,
    ensures
        fits_lines(line_entry(line)->Ok_0),
{
    let hash = next_sep(line, '#', 0);
    if line.len() > 0 && line[0] == '#' {
        lemma_stretch_keeps(line, 1, line.len() as int);
    } else {
        lemma_next_sep(line, '#', 0);
        let content = line.subrange(0, hash);
        lemma_stretch_keeps(line, 0, hash);
        lemma_stretch_keeps(line, hash + 1, line.len() as int);
        lemma_field_fits(content, 0);
        if split(content, ':').len() > 2 {
            lemma_field_fits(content, 2);
        }
    }
}

/// The texts of the entries that lines without line breaks declare fit on a
/// line.
proof fn lemma_lines_fit(lines: Seq<Seq<char>>)
    requires
        lines_entries(lines) is Ok,
        forall|k: int| 0 <= k < lines.len() ==> no_break(#[trigger] lines[k]),
    ensures
        all_fit_lines(lines_entries(lines)->Ok_0),
    decreases lines.len(),
{
    if lines.len() > 0 {
        let last = trim(lines.last());
        assert forall|k: int| 0 <= k < lines.drop_last().len() implies no_break(
            #[trigger] lines.drop_last()[k],
        ) by {
            assert(lines.drop_last()[k] == lines[k]);
        }
        lemma_lines_fit(lines.drop_last());
        if last.len() > 0 {
            let (a, b) = lemma_trim_is_stretch(lines.last());
            lemma_stretch_keeps(lines.last(), a, b);
            lemma_line_entry_fits(last);
        }
    }
}

/// The texts of every entry that schema text declares fit on a line.
pub proof fn lemma_schema_fits_lines(text: Seq<char>)
    requires
        schema_entries(text) is Ok,
    ensures
        all_fit_lines(schema_entries(text)->Ok_0),
{
    let lines = split(text, '\n');
    assert forall|k: int| 0 <= k < lines.len() implies no_break(#[trigger] lines[k]) by {
        let (a, b) = lemma_piece_is_stretch(text, '\n', k);
    }
    lemma_lines_fit(lines);
}

/// What a description writes for an option before its comment.
pub open spec fn item_lead(
    md: bool,
    key: Seq<char>,
    kind: OptionKind,
    default: Option<Seq<char>>,
) -> Seq<char> {
    let shown = match default {
        Some(d) => d,
        None => not_set(),
    };
    if md {
        "- **`"@ + key + "`**\n    - **type**: "@ + kind.name() + "\n    - **default value**: `"@
            + shown + "`\n    - "@
    } else {
        "- "@ + key + " (type: "@ + kind.name() + ") (default: "@ + shown + ") "@
    }
}

/// Whether a line of `text` begins with what a description writes for the
/// option `key` of kind `kind` with the default `default`.
pub open spec fn lists(
    text: Seq<char>,
    md: bool,
    key: Seq<char>,
    kind: OptionKind,
    default: Option<Seq<char>>,
) -> bool {
    exists|p: int| #[trigger]
        is_line_start(text, p) && holds_at(text, p, item_lead(md, key, kind, default))
}

/// A description lists every option that the entries declare, with the
/// name of its kind and its default, or the words that stand for none.
pub proof fn lemma_declared_is_listed(
    entries: Seq<EntryView>,
    md: bool,
    key: Seq<char>,
    kind: OptionKind,
    default: Option<Seq<char>>,
)
    requires
        all_fit_lines(entries),
        declares_as(entries, key, kind, default),
    ensures
        lists(description_of(entries, md), md, key, kind, default),
{
    let text = description_of(entries, md);
    let i = choose|i: int|
        0 <= i < entries.len() && is_option(#[trigger] entries[i], key, kind, default);
    let lead = item_lead(md, key, kind, default);
    let pc = piece(entries, i, md);
    lemma_entry_line(entries, md, i);
    assert(pc.subrange(0, lead.len() as int) =~= lead);
    lemma_part_of_part(text, place(entries, md, i), pc, lead);
    assert(is_line_start(text, place(entries, md, i)));
}

/// Entries from which a store can start declare no key twice.
pub proof fn lemma_sound_keys_differ(entries: Seq<EntryView>, temp_dir: Seq<char>)
    requires
        first_fault(entries, temp_dir) is None,
    ensures
        keys_differ(entries),
{
    assert forall|i: int, j: int|
        0 <= i < entries.len() && 0 <= j < entries.len() && #[trigger] entries[i] is Definition
            && #[trigger] entries[j] is Definition && entries[i]->key == entries[j]->key implies i
        == j by {
        lemma_keys_differ(entries, temp_dir, i, j);
    }
}

} // verus!
