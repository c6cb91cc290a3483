//! The option store: for each kind the set of keys that may hold a value of
//! that kind, and the values that are set.

use crate::error::{invalid_path, key_and_value, not_present, Error, ErrorView};
use crate::path::{as_text, join, joined, path_text};
use crate::text::chars_of;
use crate::value::{
    is_not, read_bool, read_char, read_int, typed, BookOption, OptionKind, OptionValue,
};
use std::path::PathBuf;
use vstd::hash_map::StringHashMap;
use vstd::prelude::*;

verus! {

/// Contains the options of a book.
pub struct BookOptions {
    options: StringHashMap<BookOption>,
    valid_bools: Vec<String>,
    valid_chars: Vec<String>,
    valid_strings: Vec<String>,
    valid_paths: Vec<String>,
    valid_ints: Vec<String>,
    /// Root path of the book, onto which `get_path` joins a stored path.
    pub root: PathBuf,
}

/// The set of the texts that a list of keys holds.
pub open spec fn key_set(list: Seq<String>) -> Set<Seq<char>> {
    Set::new(|key: Seq<char>| exists|i: int| 0 <= i < list.len() && (#[trigger] list[i])@ == key)
}

/// What is wrong with a raw value that is not in the grammar of `kind`.
pub open spec fn could_not_parse(kind: OptionKind) -> Seq<char> {
    match kind {
        OptionKind::Char => "could not parse char"@,
        OptionKind::Bool => "could not parse bool"@,
        _ => "could not parse int"@,
    }
}

/// What `set` does with a raw `value` for `key`, where `kind` is the kind
/// declared for the key, if any: the value that it stores, or the error
/// that it returns.
pub open spec fn set_outcome(kind: Option<OptionKind>, key: Seq<char>, value: Seq<char>) -> Result<
    OptionValue,
    ErrorView,
> {
    match kind {
        None => Err(ErrorView::ConfigParser("unrecognized key"@, key)),
        Some(k) => match typed(k, value) {
            Some(v) => Ok(v),
            None => Err(
                ErrorView::ConfigParser(
                    could_not_parse(k),
                    if k is Char {
                        value
                    } else {
                        key_and_value(key, value)
                    },
                ),
            ),
        },
    }
}

/// The error of a typed read of `key` that expects a value of another kind
/// than the one stored, or finds none; `expected` names the kind asked for.
pub open spec fn read_error(
    values: Map<Seq<char>, OptionValue>,
    key: Seq<char>,
    expected: Seq<char>,
) -> ErrorView {
    if values.contains_key(key) {
        ErrorView::BookOption(is_not(values[key], expected))
    } else {
        ErrorView::InvalidOption(not_present(key))
    }
}

proof fn lemma_key_set_push(list: Seq<String>, key: String)
    ensures
        key_set(list.push(key)) == key_set(list).insert(key@),
{
    let more = list.push(key);
    assert forall|k: Seq<char>| key_set(more).contains(k) <==> key_set(list).insert(key@).contains(
        k,
    ) by {
        if key_set(more).contains(k) {
            let i = choose|i: int| 0 <= i < more.len() && (#[trigger] more[i])@ == k;
            if i < list.len() {
                assert(list[i] == more[i]);
            }
        }
        if key_set(list).contains(k) {
            let i = choose|i: int| 0 <= i < list.len() && (#[trigger] list[i])@ == k;
            assert(more[i] == list[i]);
        }
        if k == key@ {
            assert(more[list.len() as int] == key);
        }
    }
    assert(key_set(more) =~= key_set(list).insert(key@));
}

fn holds_key(list: &Vec<String>, key: &String) -> (r: bool)
    ensures
        r == key_set(list@).contains(key@),
{
    let mut i: usize = 0;
    while i < list.len()
        invariant
            i <= list.len(),
            forall|j: int| 0 <= j < i ==> (#[trigger] list@[j])@ != key@,
        decreases list.len() - i,
    {
        if list[i] == *key {
            return true;
        }
        i += 1;
    }
    false
}

impl BookOptions {
    /// The keys that may hold a value of kind `kind`.
    pub closed spec fn valid_keys(&self, kind: OptionKind) -> Set<Seq<char>> {
        match kind {
            OptionKind::Str => key_set(self.valid_strings@),
            OptionKind::Path => key_set(self.valid_paths@),
            OptionKind::Char => key_set(self.valid_chars@),
            OptionKind::Bool => key_set(self.valid_bools@),
            OptionKind::Int => key_set(self.valid_ints@),
        }
    }

    /// The root path of the book.
    pub closed spec fn root_dir(&self) -> PathBuf {
        self.root
    }

    /// The values that are set, by key.
    pub closed spec fn values(&self) -> Map<Seq<char>, OptionValue> {
        self.options@.map_values(|v: BookOption| v@)
    }

    /// The kind as which `set` takes a raw value for `key`: that of the
    /// first set of valid keys that holds the key, the sets being searched
    /// in the order string, path, character, boolean, integer.
    pub open spec fn kind_of(&self, key: Seq<char>) -> Option<OptionKind> {
        if self.valid_keys(OptionKind::Str).contains(key) {
            Some(OptionKind::Str)
        } else if self.valid_keys(OptionKind::Path).contains(key) {
            Some(OptionKind::Path)
        } else if self.valid_keys(OptionKind::Char).contains(key) {
            Some(OptionKind::Char)
        } else if self.valid_keys(OptionKind::Bool).contains(key) {
            Some(OptionKind::Bool)
        } else if self.valid_keys(OptionKind::Int).contains(key) {
            Some(OptionKind::Int)
        } else {
            None
        }
    }

    /// The values that are set after a call of `set` with `key` and `value`:
    /// those that were set before, and the value that the call stores.
    pub open spec fn values_after_set(&self, key: Seq<char>, value: Seq<char>) -> Map<
        Seq<char>,
        OptionValue,
    > {
        match set_outcome(self.kind_of(key), key, value) {
            Ok(v) => self.values().insert(key, v),
            Err(_) => self.values(),
        }
    }

    /// The store is well formed: no key is valid for two kinds, and every
    /// value that is set has the kind that its key is valid for.
    pub open spec fn wf(&self) -> bool {
        &&& forall|key: Seq<char>, a: OptionKind, b: OptionKind|
            #![trigger self.valid_keys(a).contains(key), self.valid_keys(b).contains(key)]
            self.valid_keys(a).contains(key) && self.valid_keys(b).contains(key) ==> a == b
        &&& forall|key: Seq<char>| #[trigger]
            self.values().contains_key(key) ==> self.valid_keys(self.values()[key].kind()).contains(
                key,
            )
    }

    /// The kind as which `set` takes a raw value for `key`.
    pub(crate) fn declared_kind(&self, key: &String) -> (r: Option<OptionKind>)
        ensures
            r == self.kind_of(key@),
    {
        if holds_key(&self.valid_strings, key) {
            Some(OptionKind::Str)
        } else if holds_key(&self.valid_paths, key) {
            Some(OptionKind::Path)
        } else if holds_key(&self.valid_chars, key) {
            Some(OptionKind::Char)
        } else if holds_key(&self.valid_bools, key) {
            Some(OptionKind::Bool)
        } else if holds_key(&self.valid_ints, key) {
            Some(OptionKind::Int)
        } else {
            None
        }
    }

    fn store(&mut self, key: String, value: BookOption)
        ensures
            final(self).values() == old(self).values().insert(key@, value@),
            final(self).root_dir() == old(self).root_dir(),
            forall|kind: OptionKind| final(self).valid_keys(kind) == old(self).valid_keys(kind),
    {
        self.options.insert(key, value);
        assert(self.values() =~= old(self).values().insert(key@, value@));
    }

    /// Sets an option.
    ///
    /// `key` is the name of the option, such as `author`, and `value` the
    /// raw text of its value. The text is read as the kind that the key is
    /// valid for. A string or a path is stored as it stands; a character
    /// must be written between single quotes, a boolean as `true` or
    /// `false`, an integer in base 10.
    ///
    /// Fails where `key` is no valid key, or where `value` is not in the
    /// grammar of the key's kind. A call that fails changes nothing.
    pub fn set(&mut self, key: &str, value: &str) -> (r: Result<(), Error>)
        ensures
            match set_outcome(old(self).kind_of(key@), key@, value@) {
                Ok(_) => r is Ok,
                Err(e) => r matches Err(x) && x@ == e,
            },
            final(self).values() == old(self).values_after_set(key@, value@),
            final(self).root_dir() == old(self).root_dir(),
            forall|kind: OptionKind| final(self).valid_keys(kind) == old(self).valid_keys(kind),
            old(self).wf() ==> final(self).wf(),
    {
        let owned = key.to_owned();
        match self.declared_kind(&owned) {
            None => Err(Error::ConfigParser("unrecognized key", owned)),
            Some(OptionKind::Str) => {
                self.store(owned, BookOption::String(value.to_owned()));
                Ok(())
            },
            Some(OptionKind::Path) => {
                self.store(owned, BookOption::Path(value.to_owned()));
                Ok(())
            },
            Some(OptionKind::Char) => match read_char(&chars_of(value)) {
                Some(c) => {
                    self.store(owned, BookOption::Char(c));
                    Ok(())
                },
                None => Err(Error::ConfigParser("could not parse char", value.to_owned())),
            },
            Some(OptionKind::Bool) => match read_bool(&chars_of(value)) {
                Some(b) => {
                    self.store(owned, BookOption::Bool(b));
                    Ok(())
                },
                None => Err(Error::refused_value("could not parse bool", key, value)),
            },
            Some(OptionKind::Int) => match read_int(&chars_of(value)) {
                Some(i) => {
                    self.store(owned, BookOption::Int(i));
                    Ok(())
                },
                None => Err(Error::refused_value("could not parse int", key, value)),
            },
        }
    }

    /// The value that is set for `key`.
    ///
    /// Fails where none is set.
    pub fn get(&self, key: &str) -> (r: Result<&BookOption, Error>)
        ensures
            match r {
                Ok(v) => self.values().contains_key(key@) && self.values()[key@] == v@,
                Err(e) => !self.values().contains_key(key@) && e@ == ErrorView::InvalidOption(
                    not_present(key@),
                ),
            },
    {
        match self.options.get(key) {
            Some(v) => Ok(v),
            None => Err(Error::absent(key)),
        }
    }

    /// The string that is set for `key`.
    ///
    /// Fails where no value is set for `key`, or one that is no string.
    pub fn get_str(&self, key: &str) -> (r: Result<&str, Error>)
        ensures
            match r {
                Ok(s) => self.values().contains_key(key@) && self.values()[key@]
                    == OptionValue::Str(s@),
                Err(e) => !(self.values().contains_key(key@) && self.values()[key@] is Str) && e@
                    == read_error(self.values(), key@, "a string"@),
            },
    {
        match self.get(key) {
            Ok(v) => v.as_str(),
            Err(e) => Err(e),
        }
    }

    /// The path that is set for `key`, as it was stored: the root is not
    /// put before it.
    ///
    /// Fails where no value is set for `key`, or one that is no path.
    pub fn get_relative_path(&self, key: &str) -> (r: Result<&str, Error>)
        ensures
            match r {
                Ok(s) => self.values().contains_key(key@) && self.values()[key@]
                    == OptionValue::Path(s@),
                Err(e) => !(self.values().contains_key(key@) && self.values()[key@] is Path) && e@
                    == read_error(self.values(), key@, "a path"@),
            },
    {
        match self.get(key) {
            Ok(v) => v.as_path(),
            Err(e) => Err(e),
        }
    }

    /// The boolean that is set for `key`.
    ///
    /// Fails where no value is set for `key`, or one that is no boolean.
    pub fn get_bool(&self, key: &str) -> (r: Result<bool, Error>)
        ensures
            match r {
                Ok(b) => self.values().contains_key(key@) && self.values()[key@]
                    == OptionValue::Bool(b),
                Err(e) => !(self.values().contains_key(key@) && self.values()[key@] is Bool) && e@
                    == read_error(self.values(), key@, "a bool"@),
            },
    {
        match self.get(key) {
            Ok(v) => v.as_bool(),
            Err(e) => Err(e),
        }
    }

    /// The character that is set for `key`.
    ///
    /// Fails where no value is set for `key`, or one that is no character.
    pub fn get_char(&self, key: &str) -> (r: Result<char, Error>)
        ensures
            match r {
                Ok(c) => self.values().contains_key(key@) && self.values()[key@]
                    == OptionValue::Char(c),
                Err(e) => !(self.values().contains_key(key@) && self.values()[key@] is Char) && e@
                    == read_error(self.values(), key@, "a char"@),
            },
    {
        match self.get(key) {
            Ok(v) => v.as_char(),
            Err(e) => Err(e),
        }
    }

    /// The integer that is set for `key`.
    ///
    /// Fails where no value is set for `key`, or one that is no integer.
    pub fn get_i32(&self, key: &str) -> (r: Result<i32, Error>)
        ensures
            match r {
                Ok(i) => self.values().contains_key(key@) && self.values()[key@]
                    == OptionValue::Int(i),
                Err(e) => !(self.values().contains_key(key@) && self.values()[key@] is Int) && e@
                    == read_error(self.values(), key@, "an i32"@),
            },
    {
        match self.get(key) {
            Ok(v) => v.as_i32(),
            Err(e) => Err(e),
        }
    }

    /// What `get_path` returns for a stored path under `key`, once the path
    /// has been joined onto the root and read back as `text`: the text, or
    /// an error where the joined path has none.
    pub fn joined_path(key: &str, text: Option<&str>) -> (r: Result<String, Error>)
        ensures
            match text {
                Some(t) => r matches Ok(s) && s@ == t@,
                None => r matches Err(e) && e@ == ErrorView::BookOption(invalid_path(key@)),
            },
    {
        match text {
            Some(t) => Ok(t.to_owned()),
            None => Err(Error::path_not_text(key)),
        }
    }

    /// The path that is set for `key`, joined onto the root of the book by
    /// the file-system rules of the platform.
    ///
    /// Fails where no value is set for `key`, or one that is no path, or
    /// where the joined path cannot be written as text.
    pub fn get_path(&self, key: &str) -> (r: Result<String, Error>)
        ensures
            match r {
                Ok(s) => self.values().contains_key(key@) && self.values()[key@] is Path
                    && path_text(joined(self.root_dir(), self.values()[key@]->Path_0)) == Some(
                    s@,
                ),
                Err(e) => if self.values().contains_key(key@) && self.values()[key@] is Path {
                    path_text(joined(self.root_dir(), self.values()[key@]->Path_0)) is None && e@
                        == ErrorView::BookOption(invalid_path(key@))
                } else {
                    e@ == read_error(self.values(), key@, "a path"@)
                },
            },
    {
        let path = match self.get_relative_path(key) {
            Ok(path) => path,
            Err(e) => {
                return Err(e);
            },
        };
        let joined = join(&self.root, path);
        Self::joined_path(key, as_text(&joined))
    }

    /// The root path of the book.
    pub fn root_path(&self) -> (r: &PathBuf)
        ensures
            *r == self.root_dir(),
    {
        &self.root
    }

    /// Makes `root` the root path of the book. The values that are set and
    /// the valid keys stay as they were.
    pub fn set_root(&mut self, root: PathBuf)
        ensures
            final(self).root_dir() == root,
            final(self).values() == old(self).values(),
            forall|kind: OptionKind| final(self).valid_keys(kind) == old(self).valid_keys(kind),
            old(self).wf() ==> final(self).wf(),
    {
        self.root = root;
        assert(self.values() == old(self).values());
        assert forall|kind: OptionKind| self.valid_keys(kind) == old(self).valid_keys(kind) by {}
    }

    /// A store without valid keys and without values.
    pub(crate) fn empty() -> (r: BookOptions)
        ensures
            r.wf(),
            r.values() == Map::<Seq<char>, OptionValue>::empty(),
            forall|kind: OptionKind| r.valid_keys(kind) == Set::<Seq<char>>::empty(),
    {
        let r = BookOptions {
            options: StringHashMap::new(),
            valid_bools: Vec::new(),
            valid_chars: Vec::new(),
            valid_ints: Vec::new(),
            valid_strings: Vec::new(),
            valid_paths: Vec::new(),
            root: PathBuf::new(),
        };
        assert(r.values() =~= Map::<Seq<char>, OptionValue>::empty());
        assert(key_set(Seq::<String>::empty()) =~= Set::<Seq<char>>::empty());
        r
    }

    /// Makes `key`, which is valid for no kind yet, a valid key for values
    /// of kind `kind`.
    pub(crate) fn register(&mut self, kind: OptionKind, key: String)
        requires
            old(self).kind_of(key@) is None,
        ensures
            old(self).wf() ==> final(self).wf(),
            final(self).valid_keys(kind) == old(self).valid_keys(kind).insert(key@),
            forall|other: OptionKind|
                other != kind ==> final(self).valid_keys(other) == old(self).valid_keys(other),
            final(self).values() == old(self).values(),
            final(self).root_dir() == old(self).root_dir(),
    {
        proof {
            lemma_key_set_push(self.valid_strings@, key);
            lemma_key_set_push(self.valid_paths@, key);
            lemma_key_set_push(self.valid_chars@, key);
            lemma_key_set_push(self.valid_bools@, key);
            lemma_key_set_push(self.valid_ints@, key);
        }
        match kind {
            OptionKind::Str => self.valid_strings.push(key),
            OptionKind::Path => self.valid_paths.push(key),
            OptionKind::Char => self.valid_chars.push(key),
            OptionKind::Bool => self.valid_bools.push(key),
            OptionKind::Int => self.valid_ints.push(key),
        }
    }
}

} // verus!
