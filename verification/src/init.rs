//! How a store starts: from the entries of a schema, and from the schema
//! of the library.

use crate::builtin::{
    first_values, lemma_options_first_values, lemma_options_kinds, takes_options,
};
use crate::error::{key_and_value, Error, ErrorView};
use crate::schema::{
    entry_views, parse_schema, schema_entries, EntryView, Fault, SchemaEntry, OPTIONS,
};
use crate::store::BookOptions;
use crate::value::{typed, OptionKind, OptionValue};
use vstd::prelude::*;

verus! {

/// Whether one of `entries` declares `key` as an option of kind `kind`.
pub open spec fn declares(entries: Seq<EntryView>, key: Seq<char>, kind: OptionKind) -> bool {
    exists|i: int| 0 <= i < entries.len() && is_definition(#[trigger] entries[i], key, kind)
}

/// Whether `entry` declares `key` as an option of kind `kind`.
pub open spec fn is_definition(entry: EntryView, key: Seq<char>, kind: OptionKind) -> bool {
    entry matches EntryView::Definition { key: k, kind: d, .. } && k == key && d == kind
}

/// Whether one of `entries` declares `key`, as an option of whatever kind.
pub open spec fn declared(entries: Seq<EntryView>, key: Seq<char>) -> bool {
    ||| declares(entries, key, OptionKind::Str)
    ||| declares(entries, key, OptionKind::Path)
    ||| declares(entries, key, OptionKind::Char)
    ||| declares(entries, key, OptionKind::Bool)
    ||| declares(entries, key, OptionKind::Int)
}

/// The key of the option that receives the directory for temporary files
/// as its first value, whatever default the schema writes for it.
pub open spec fn temp_dir_key() -> Seq<char> {
    "temp_dir"@
}

/// The raw text of the value that the option declared by `entry` starts
/// with, if it starts with one: `temp_dir` for the key of that name, else
/// the default that the entry writes.
pub open spec fn starting_text(entry: EntryView, temp_dir: Seq<char>) -> Option<Seq<char>> {
    match entry {
        EntryView::Section(_) => None,
        EntryView::Definition { key, default, .. } => if key == temp_dir_key() {
            Some(temp_dir)
        } else {
            default
        },
    }
}

/// Whether `entry` declares `key` and gives it a first value.
pub open spec fn gives_value(entry: EntryView, temp_dir: Seq<char>, key: Seq<char>) -> bool {
    entry matches EntryView::Definition { key: k, .. } && k == key && starting_text(
        entry,
        temp_dir,
    ) is Some
}

/// What makes `entry` unfit to follow the entries `before` it in a schema:
/// its key is declared before, or its first value is not in the grammar of
/// its kind.
pub open spec fn entry_fault(before: Seq<EntryView>, entry: EntryView, temp_dir: Seq<char>) -> Option<
    ErrorView,
> {
    match entry {
        EntryView::Section(_) => None,
        EntryView::Definition { key, kind, .. } => if declared(before, key) {
            Some(ErrorView::Schema("duplicate key"@, key))
        } else {
            match starting_text(entry, temp_dir) {
                Some(raw) => if typed(kind, raw) is None {
                    Some(ErrorView::Schema("invalid default value"@, key_and_value(key, raw)))
                } else {
                    None
                },
                None => None,
            }
        },
    }
}

/// The fault of the first of `entries` that is unfit to follow those before
/// it, or `None` where a store can start from the entries.
pub open spec fn first_fault(entries: Seq<EntryView>, temp_dir: Seq<char>) -> Option<ErrorView>
    decreases entries.len(),
{
    if entries.len() == 0 {
        None
    } else {
        match first_fault(entries.drop_last(), temp_dir) {
            Some(fault) => Some(fault),
            None => entry_fault(entries.drop_last(), entries.last(), temp_dir),
        }
    }
}

/// Whether one of `entries` declares `key` and gives it a first value.
pub open spec fn gets_value(entries: Seq<EntryView>, temp_dir: Seq<char>, key: Seq<char>) -> bool {
    exists|i: int| 0 <= i < entries.len() && gives_value(#[trigger] entries[i], temp_dir, key)
}

/// The value that the option declared by `entry` starts with, if it starts
/// with one.
pub open spec fn first_value(entry: EntryView, temp_dir: Seq<char>) -> Option<OptionValue> {
    match entry {
        EntryView::Section(_) => None,
        EntryView::Definition { kind, .. } => match starting_text(entry, temp_dir) {
            Some(raw) => typed(kind, raw),
            None => None,
        },
    }
}

/// A fault among the first entries is the fault of the whole.
proof fn lemma_first_fault_stays(entries: Seq<EntryView>, temp_dir: Seq<char>, k: int)
    requires
        0 <= k <= entries.len(),
        first_fault(entries.take(k), temp_dir) is Some,
    ensures
        first_fault(entries, temp_dir) == first_fault(entries.take(k), temp_dir),
    decreases entries.len() - k,
{
    if k < entries.len() {
        assert(entries.take(k + 1).drop_last() =~= entries.take(k));
        lemma_first_fault_stays(entries, temp_dir, k + 1);
    } else {
        assert(entries.take(k) =~= entries);
    }
}

/// One entry more declares what the entries before it declare, and what it
/// declares itself.
proof fn lemma_declares_step(entries: Seq<EntryView>, k: int)
    requires
        0 <= k < entries.len(),
    ensures
        forall|key: Seq<char>, kind: OptionKind|
            #![trigger declares(entries.take(k + 1), key, kind)]
            declares(entries.take(k + 1), key, kind) <==> declares(entries.take(k), key, kind)
                || is_definition(entries[k], key, kind),
        forall|key: Seq<char>, temp_dir: Seq<char>|
            #![trigger gets_value(entries.take(k + 1), temp_dir, key)]
            gets_value(entries.take(k + 1), temp_dir, key) <==> gets_value(
                entries.take(k),
                temp_dir,
                key,
            ) || gives_value(entries[k], temp_dir, key),
{
    let more = entries.take(k + 1);
    let less = entries.take(k);
    assert(more[k] == entries[k]);
    assert forall|key: Seq<char>, kind: OptionKind|
        #![trigger declares(more, key, kind)]
        declares(more, key, kind) <==> declares(less, key, kind) || is_definition(
            entries[k],
            key,
            kind,
        ) by {
        if declares(more, key, kind) {
            let i = choose|i: int| 0 <= i < more.len() && is_definition(#[trigger] more[i], key, kind);
            if i < k {
                assert(less[i] == more[i]);
            }
        }
        if declares(less, key, kind) {
            let i = choose|i: int| 0 <= i < less.len() && is_definition(#[trigger] less[i], key, kind);
            assert(more[i] == less[i]);
        }
    }
    assert forall|key: Seq<char>, temp_dir: Seq<char>|
        #![trigger gets_value(more, temp_dir, key)]
        gets_value(more, temp_dir, key) <==> gets_value(less, temp_dir, key) || gives_value(
            entries[k],
            temp_dir,
            key,
        ) by {
        if gets_value(more, temp_dir, key) {
            let i = choose|i: int|
                0 <= i < more.len() && gives_value(#[trigger] more[i], temp_dir, key);
            if i < k {
                assert(less[i] == more[i]);
            }
        }
        if gets_value(less, temp_dir, key) {
            let i = choose|i: int|
                0 <= i < less.len() && gives_value(#[trigger] less[i], temp_dir, key);
            assert(more[i] == less[i]);
        }
    }
}

fn is_temp_dir(key: &String) -> (r: bool)
    ensures
        r == (key@ == temp_dir_key()),
{
    *key == "temp_dir".to_owned()
}

impl BookOptions {
    /// The valid keys are those of the options that `entries` declare, each
    /// valid for the kind that it is declared as.
    pub open spec fn accepts(&self, entries: Seq<EntryView>) -> bool {
        forall|key: Seq<char>, kind: OptionKind|
            #![trigger self.valid_keys(kind).contains(key)]
            self.valid_keys(kind).contains(key) <==> declares(entries, key, kind)
    }

    /// The store starts from `entries`: it accepts their keys, and the
    /// values that are set are the first values of the options that start
    /// with one.
    pub open spec fn starts_from(&self, entries: Seq<EntryView>, temp_dir: Seq<char>) -> bool {
        &&& self.accepts(entries)
        &&& forall|key: Seq<char>|
            #![trigger self.values().contains_key(key)]
            self.values().contains_key(key) <==> gets_value(entries, temp_dir, key)
        &&& forall|i: int|
            0 <= i < entries.len() && first_value(#[trigger] entries[i], temp_dir) is Some
                ==> first_value(entries[i], temp_dir) == Some(self.values()[entries[i]->key])
    }

    /// A store that starts from the given schema entries, with `temp_dir`
    /// as the directory for temporary files.
    ///
    /// Each option of the schema becomes a valid key of its kind. The key
    /// `temp_dir` is set to `temp_dir`; every other option that has a
    /// default is set to it, read as `set` reads a raw value.
    ///
    /// Fails on the first entry whose key an earlier entry declares, or
    /// whose first value is not in the grammar of its kind.
    pub fn from_entries(entries: &Vec<SchemaEntry>, temp_dir: &str) -> (r: Result<
        BookOptions,
        Error,
    >)
        ensures
            match first_fault(entry_views(entries@), temp_dir@) {
                Some(fault) => r matches Err(e) && e@ == fault,
                None => r matches Ok(store) && store.wf() && store.starts_from(
                    entry_views(entries@),
                    temp_dir@,
                ),
            },
    {
        let ghost views = entry_views(entries@);
        let mut store = Self::empty();
        let mut i: usize = 0;
        assert(views.take(0) =~= Seq::<EntryView>::empty());
        while i < entries.len()
            invariant
                i <= entries.len(),
                views == entry_views(entries@),
                first_fault(views.take(i as int), temp_dir@) is None,
                store.wf(),
                store.starts_from(views.take(i as int), temp_dir@),
            decreases entries.len() - i,
        {
            proof {
                assert(views.take(i + 1).drop_last() =~= views.take(i as int));
                lemma_declares_step(views, i as int);
            }
            match &entries[i] {
                SchemaEntry::Section(_) => {},
                SchemaEntry::Definition { key, kind, default, .. } => {
                    if store.declared_kind(key).is_some() {
                        proof {
                            lemma_first_fault_stays(views, temp_dir@, i + 1);
                        }
                        return Err(Error::Schema("duplicate key", key.clone()));
                    }
                    store.register(*kind, key.clone());
                    let raw: Option<&str> = if is_temp_dir(key) {
                        Some(temp_dir)
                    } else {
                        match default {
                            Some(d) => Some(d.as_str()),
                            None => None,
                        }
                    };
                    match raw {
                        None => {},
                        Some(raw) => {
                            if store.set(key.as_str(), raw).is_err() {
                                proof {
                                    lemma_first_fault_stays(views, temp_dir@, i + 1);
                                }
                                return Err(
                                    Error::refused_value_in_schema(key.as_str(), raw),
                                );
                            }
                        },
                    }
                },
            }
            i += 1;
        }
        assert(views.take(i as int) =~= views);
        Ok(store)
    }

    /// The entries of the schema `OPTIONS`, in the order of the text.
    ///
    /// Fails where the text is defective.
    pub fn options_to_vec() -> (r: Result<Vec<SchemaEntry>, Error>)
        ensures
            match r {
                Ok(entries) => schema_entries(OPTIONS@) == Ok::<Seq<EntryView>, Fault>(
                    entry_views(entries@),
                ),
                Err(e) => schema_entries(OPTIONS@) matches Err(fault) && e@ == ErrorView::Schema(
                    fault.what,
                    fault.line,
                ),
            },
    {
        parse_schema(OPTIONS)
    }

    /// A store that starts from the schema `OPTIONS`, with `temp_dir` as the
    /// directory for temporary files.
    ///
    /// Fails where the schema is defective: a caller should treat that as
    /// fatal.
    pub fn new(temp_dir: &str) -> (r: Result<BookOptions, Error>)
        ensures
            match schema_entries(OPTIONS@) {
                Err(fault) => r matches Err(e) && e@ == ErrorView::Schema(fault.what, fault.line),
                Ok(entries) => match first_fault(entries, temp_dir@) {
                    Some(fault) => r matches Err(e) && e@ == fault,
                    None => r matches Ok(store) && store.wf() && store.starts_from(
                        entries,
                        temp_dir@,
                    ),
                },
            },
            r matches Ok(store) ==> first_values(store.values(), temp_dir@) && takes_options(
                store,
            ),
    {
        match Self::options_to_vec() {
            Ok(entries) => {
                let r = Self::from_entries(&entries, temp_dir);
                proof {
                    if r is Ok {
                        lemma_options_first_values(r->Ok_0, temp_dir@);
                        lemma_options_kinds(r->Ok_0);
                    }
                }
                r
            },
            Err(e) => Err(e),
        }
    }
}

} // verus!
