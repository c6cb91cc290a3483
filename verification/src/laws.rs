//! What holds of every store and of every schema: the rules that the
//! contracts of the store add up to.

use crate::error::{key_and_value, ErrorView};
use crate::init::{declares, first_fault, entry_fault, gives_value, is_definition, starting_text, temp_dir_key};
use crate::schema::EntryView;
use crate::store::{could_not_parse, set_outcome, BookOptions};
use crate::value::{parse_bool, parse_char, parse_int, typed, OptionKind, OptionValue};
use vstd::prelude::*;

verus! {

/// In a well-formed store that accepts the keys of `entries`, the key of
/// every option that the entries declare is valid for exactly one kind: the
/// one that it is declared as.
pub proof fn lemma_key_of_one_kind(
    store: BookOptions,
    entries: Seq<EntryView>,
    i: int,
    kind: OptionKind,
)
    requires
        store.wf(),
        store.accepts(entries),
        0 <= i < entries.len(),
        entries[i] is Definition,
    ensures
        store.valid_keys(kind).contains(entries[i]->key) <==> kind == entries[i]->kind,
        store.kind_of(entries[i]->key) == Some(entries[i]->kind),
{
    let key = entries[i]->key;
    let own = entries[i]->kind;
    assert(is_definition(entries[i], key, own));
    assert(store.valid_keys(own).contains(key));
    lemma_kind_of_valid_key(store, key, own);
}

/// In a well-formed store, `set` takes a raw value for a key as the one
/// kind that the key is valid for.
pub proof fn lemma_kind_of_valid_key(store: BookOptions, key: Seq<char>, kind: OptionKind)
    requires
        store.wf(),
        store.valid_keys(kind).contains(key),
    ensures
        store.kind_of(key) == Some(kind),
{
    assert(store.valid_keys(OptionKind::Str).contains(key) ==> kind == OptionKind::Str);
    assert(store.valid_keys(OptionKind::Path).contains(key) ==> kind == OptionKind::Path);
    assert(store.valid_keys(OptionKind::Char).contains(key) ==> kind == OptionKind::Char);
    assert(store.valid_keys(OptionKind::Bool).contains(key) ==> kind == OptionKind::Bool);
    assert(store.valid_keys(OptionKind::Int).contains(key) ==> kind == OptionKind::Int);
}

/// In a well-formed store, a value that is set has the kind that `set`
/// takes raw values for its key as: the kind of a key's value never
/// changes.
pub proof fn lemma_value_keeps_kind(store: BookOptions, key: Seq<char>)
    requires
        store.wf(),
        store.values().contains_key(key),
    ensures
        store.kind_of(key) == Some(store.values()[key].kind()),
{
    lemma_kind_of_valid_key(store, key, store.values()[key].kind());
}

/// A raw value that is in the grammar of the key's kind is found under the
/// key after `set`, as what it writes: the text itself for a string or a
/// path, else the boolean, character or integer that the text writes. The
/// values of other keys stay as they were.
pub proof fn lemma_set_then_get(store: BookOptions, key: Seq<char>, raw: Seq<char>)
    requires
        store.kind_of(key) is Some,
        typed(store.kind_of(key)->0, raw) is Some,
    ensures
        set_outcome(store.kind_of(key), key, raw) is Ok,
        store.values_after_set(key, raw).contains_key(key),
        store.values_after_set(key, raw)[key] == match store.kind_of(key)->0 {
            OptionKind::Str => OptionValue::Str(raw),
            OptionKind::Path => OptionValue::Path(raw),
            OptionKind::Bool => OptionValue::Bool(parse_bool(raw)->0),
            OptionKind::Char => OptionValue::Char(parse_char(raw)->0),
            OptionKind::Int => OptionValue::Int(parse_int(raw)->0),
        },
        forall|other: Seq<char>|
            other != key ==> (#[trigger] store.values_after_set(key, raw).contains_key(other))
                == store.values().contains_key(other) && store.values_after_set(key, raw)[other]
                == store.values()[other],
{
}

/// `set` fails just where the key is valid for no kind, or the raw value is
/// not in the grammar of the key's kind; the error tells the two apart, and
/// the values that are set stay as they were.
pub proof fn lemma_set_refuses(store: BookOptions, key: Seq<char>, raw: Seq<char>)
    ensures
        set_outcome(store.kind_of(key), key, raw) is Err <==> (store.kind_of(key) is None || typed(
            store.kind_of(key)->0,
            raw,
        ) is None),
        set_outcome(store.kind_of(key), key, raw) is Err ==> store.values_after_set(key, raw)
            == store.values(),
        store.kind_of(key) is None ==> set_outcome(store.kind_of(key), key, raw) == Err::<
            OptionValue,
            ErrorView,
        >(ErrorView::ConfigParser("unrecognized key"@, key)),
        (store.kind_of(key) is Some && typed(store.kind_of(key)->0, raw) is None) ==> set_outcome(
            store.kind_of(key),
            key,
            raw,
        ) == Err::<OptionValue, ErrorView>(
            ErrorView::ConfigParser(
                could_not_parse(store.kind_of(key)->0),
                if store.kind_of(key)->0 is Char {
                    raw
                } else {
                    key_and_value(key, raw)
                },
            ),
        ),
{
}

/// `set` keeps a well-formed store well formed: the value that it stores
/// has the kind that the key is valid for.
pub proof fn lemma_set_keeps_kind(store: BookOptions, key: Seq<char>, raw: Seq<char>)
    requires
        store.wf(),
        set_outcome(store.kind_of(key), key, raw) is Ok,
    ensures
        store.valid_keys(store.values_after_set(key, raw)[key].kind()).contains(key),
        store.kind_of(key) == Some(store.values_after_set(key, raw)[key].kind()),
{
}

/// In a store that starts from `entries`, an option that the entries
/// declare with a first value holds that value, read as its kind; an option
/// that they declare without one holds none, unless another entry declares
/// the key with one.
pub proof fn lemma_starts_with_defaults(
    store: BookOptions,
    entries: Seq<EntryView>,
    temp_dir: Seq<char>,
    i: int,
)
    requires
        store.starts_from(entries, temp_dir),
        first_fault(entries, temp_dir) is None,
        0 <= i < entries.len(),
        entries[i] is Definition,
    ensures
        match starting_text(entries[i], temp_dir) {
            Some(raw) => store.values().contains_key(entries[i]->key) && Some(
                store.values()[entries[i]->key],
            ) == typed(entries[i]->kind, raw),
            None => !store.values().contains_key(entries[i]->key),
        },
{
    let key = entries[i]->key;
    lemma_no_fault_at(entries, temp_dir, i);
    if starting_text(entries[i], temp_dir) is Some {
        assert(gives_value(entries[i], temp_dir, key));
    } else if store.values().contains_key(key) {
        let j = choose|j: int| 0 <= j < entries.len() && gives_value(#[trigger] entries[j], temp_dir, key);
        lemma_keys_differ(entries, temp_dir, i, j);
    }
}

/// In a store that starts from entries that declare the key `temp_dir` as
/// a path, the key holds the directory that the store was made with.
pub proof fn lemma_temp_dir_is_set(
    store: BookOptions,
    entries: Seq<EntryView>,
    temp_dir: Seq<char>,
    i: int,
)
    requires
        store.starts_from(entries, temp_dir),
        first_fault(entries, temp_dir) is None,
        0 <= i < entries.len(),
        is_definition(entries[i], temp_dir_key(), OptionKind::Path),
    ensures
        store.values().contains_key(temp_dir_key()),
        store.values()[temp_dir_key()] == OptionValue::Path(temp_dir),
{
    lemma_starts_with_defaults(store, entries, temp_dir, i);
}

/// Entries without a fault have none at any index.
proof fn lemma_no_fault_at(entries: Seq<EntryView>, temp_dir: Seq<char>, i: int)
    requires
        first_fault(entries, temp_dir) is None,
        0 <= i < entries.len(),
    ensures
        entry_fault(entries.take(i), entries[i], temp_dir) is None,
    decreases entries.len(),
{
    if i == entries.len() - 1 {
        assert(entries.drop_last() =~= entries.take(i));
    } else {
        lemma_no_fault_at(entries.drop_last(), temp_dir, i);
        assert(entries.drop_last().take(i) =~= entries.take(i));
    }
}

/// Entries without a fault declare no key twice.
pub proof fn lemma_keys_differ(entries: Seq<EntryView>, temp_dir: Seq<char>, i: int, j: int)
    requires
        first_fault(entries, temp_dir) is None,
        0 <= i < entries.len(),
        0 <= j < entries.len(),
        entries[i] is Definition,
        entries[j] is Definition,
        entries[i]->key == entries[j]->key,
    ensures
        i == j,
{
    let (lo, hi) = if i < j {
        (i, j)
    } else {
        (j, i)
    };
    if lo < hi {
        lemma_no_fault_at(entries, temp_dir, hi);
        let before = entries.take(hi);
        assert(before[lo] == entries[lo]);
        assert(is_definition(before[lo], entries[hi]->key, entries[lo]->kind));
        assert(declares(before, entries[hi]->key, entries[lo]->kind));
    }
}

} // verus!
