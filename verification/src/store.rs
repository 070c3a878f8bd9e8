//! The program store: named programs kept in a backend.

use crate::backend::{consistent, Backend};
use crate::clock::Clock;
use crate::entry::{
    decode_spec, holds, lemma_record_of_held, metadata_of, record_text, DecodeKind, Entry,
    Metadata, Record, VERSION,
};
use crate::error::{
    get_failed, parse_failed, put_failed, remove_failed, ErrorKind, StoreError,
};
use crate::key::{
    canonical_of, is_program_key, is_program_name, key_for, lemma_key_for_is_program_key,
    lemma_program_key_name, name_of, prefix, Key,
};
use crate::ordered::{has_name, put_in_order, slot_of, sorted_by_name};
use crate::text::{lemma_upper_idempotent, push_natural, upper};
use crate::timestamp::Timestamp;
use vstd::prelude::*;
use vstd::string::StringExecFns;

verus! {

/// The backend's contents after the entry under `from` has moved to `to`.
pub open spec fn renamed(
    contents: Map<Seq<char>, Seq<char>>,
    from: Seq<char>,
    to: Seq<char>,
) -> Map<Seq<char>, Seq<char>> {
    contents.insert(to, contents[from]).remove(from)
}

/// Whether `key` is a program key in a case other than the canonical one.
pub open spec fn needs_rename(key: Seq<char>) -> bool {
    is_program_key(key) && canonical_of(key) != key
}

/// The backend's contents after `key` has been brought to canonical form.
pub open spec fn migrate_key(contents: Map<Seq<char>, Seq<char>>, key: Seq<char>) -> Map<
    Seq<char>,
    Seq<char>,
> {
    if needs_rename(key) && contents.contains_key(key) {
        renamed(contents, key, canonical_of(key))
    } else {
        contents
    }
}

/// The backend's contents after each of `keys`, in order, has been brought
/// to canonical form.
pub open spec fn migrated(contents: Map<Seq<char>, Seq<char>>, keys: Seq<Seq<char>>) -> Map<
    Seq<char>,
    Seq<char>,
>
    decreases keys.len(),
{
    if keys.len() == 0 {
        contents
    } else {
        migrate_key(migrated(contents, keys.drop_last()), keys.last())
    }
}

/// Whether the keys that do not belong to the program store are the same,
/// with the same values, in `after` as in `before`.
pub open spec fn foreign_untouched(
    before: Map<Seq<char>, Seq<char>>,
    after: Map<Seq<char>, Seq<char>>,
) -> bool {
    forall|k: Seq<char>|
        !is_program_key(k) ==> (after.contains_key(k) <==> before.contains_key(k)) && (
        before.contains_key(k) ==> after[k] == before[k])
}

/// Whether every program of `before` is still there in `after`, under its
/// own key or under the canonical form of it.
pub open spec fn programs_kept(
    before: Map<Seq<char>, Seq<char>>,
    after: Map<Seq<char>, Seq<char>>,
) -> bool {
    forall|k: Seq<char>|
        before.contains_key(k) && is_program_key(k) ==> after.contains_key(k)
            || after.contains_key(canonical_of(k))
}

/// Whether every program key of `contents` is in canonical form.
pub open spec fn all_canonical(contents: Map<Seq<char>, Seq<char>>) -> bool {
    forall|k: Seq<char>| contents.contains_key(k) && is_program_key(k) ==> canonical_of(k) == k
}

/// The canonical form of a program key is a program key, and is its own
/// canonical form.
pub proof fn lemma_canonical_of(key: Seq<char>)
    requires
        is_program_key(key),
    ensures
        is_program_key(canonical_of(key)),
        canonical_of(canonical_of(key)) == canonical_of(key),
{
    lemma_program_key_name(key);
    lemma_key_for_is_program_key(name_of(key));
    lemma_upper_idempotent(name_of(key));
}

/// After a program was put under one spelling of its name, a lookup under
/// any spelling that differs from it only in case finds the text that was
/// put.  The content and the modification time that were put are read from
/// it, if the parser finds in the text the fields that it was written from.
pub proof fn lemma_put_then_get(
    contents: Map<Seq<char>, Seq<char>>,
    put_name: Seq<char>,
    get_name: Seq<char>,
    content: Seq<char>,
    mtime: Timestamp,
)
    requires
        upper(put_name) == upper(get_name),
        mtime.valid(),
    ensures
        ({
            let rec = Record { version: VERSION, content, mtime };
            let after = contents.insert(key_for(put_name), record_text(rec));
            &&& after.contains_key(key_for(get_name))
            &&& after[key_for(get_name)] == record_text(rec)
            &&& forall|doc: serde_json::Value|
                crate::json::json_parse(record_text(rec)) == Some(doc) && #[trigger] holds(
                    doc,
                    rec,
                ) ==> decode_spec(after[key_for(get_name)]) == Ok::<Record, DecodeKind>(rec)
        }),
{
    let rec = Record { version: VERSION, content, mtime };
    assert forall|doc: serde_json::Value|
        crate::json::json_parse(record_text(rec)) == Some(doc) && #[trigger] holds(
            doc,
            rec,
        ) implies decode_spec(record_text(rec)) == Ok::<Record, DecodeKind>(rec) by {
        lemma_record_of_held(doc, rec);
    }
}

/// Deleting a program leaves every other key of the backend, with its value,
/// as it was.
pub proof fn lemma_delete_leaves_others(
    contents: Map<Seq<char>, Seq<char>>,
    name: Seq<char>,
    other: Seq<char>,
)
    requires
        other != key_for(name),
    ensures
        contents.remove(key_for(name)).contains_key(other) == contents.contains_key(other),
        contents.contains_key(other) ==> contents.remove(key_for(name))[other] == contents[other],
{
}

/// Whether the listing has the program called `name` with the data `shown`,
/// as `contents` holds it.
pub open spec fn lists(
    contents: Map<Seq<char>, Seq<char>>,
    name: Seq<char>,
    shown: Metadata,
    offset_minutes: i16,
) -> bool {
    &&& is_program_key(prefix() + name)
    &&& contents.contains_key(prefix() + name)
    &&& decode_spec(contents[prefix() + name]) matches Ok(rec) && shown == metadata_of(
        rec,
        offset_minutes,
    )
}

/// Whether `list` is the listing of the programs in `contents`: one item for
/// each program key, under the name that the key holds, ordered by name.
pub open spec fn is_listing(
    list: Seq<(String, Metadata)>,
    contents: Map<Seq<char>, Seq<char>>,
    offset_minutes: i16,
) -> bool {
    &&& sorted_by_name(list)
    &&& forall|i: int|
        0 <= i < list.len() ==> lists(contents, #[trigger] list[i].0@, list[i].1, offset_minutes)
    &&& forall|k: Seq<char>|
        contents.contains_key(k) && is_program_key(k) ==> has_name(list, #[trigger] name_of(k))
}

/// Whether the key at position `at` of `keys` is the first program key whose
/// value in `contents` cannot be read as an entry.
pub open spec fn first_unreadable(
    contents: Map<Seq<char>, Seq<char>>,
    keys: Seq<Seq<char>>,
    at: int,
) -> bool {
    &&& 0 <= at < keys.len()
    &&& is_program_key(keys[at])
    &&& contents.contains_key(keys[at])
    &&& decode_spec(contents[keys[at]]) is Err
    &&& forall|j: int|
        0 <= j < at && is_program_key(#[trigger] keys[j]) ==> decode_spec(contents[keys[j]]) is Ok
}

/// Whether the key of the program called `name` is among the first `count`
/// of `keys`.
spec fn among(keys: Seq<Seq<char>>, count: int, name: Seq<char>) -> bool {
    exists|j: int| 0 <= j < count && #[trigger] keys[j] == prefix() + name
}

/// A store of named programs on top of a backend, which stamps what it
/// writes with the time of a clock.
pub struct ProgramStore<B: Backend, C: Clock> {
    /// Where the programs are kept.
    pub backend: B,
    /// Clock used by this store to generate modification times.
    pub clock: C,
}

impl<B: Backend, C: Clock> View for ProgramStore<B, C> {
    type V = Map<Seq<char>, Seq<char>>;

    open spec fn view(&self) -> Map<Seq<char>, Seq<char>> {
        self.backend@
    }
}

impl<B: Backend, C: Clock> ProgramStore<B, C> {
    /// Whether the backend is in a state that the store can work with.
    pub open spec fn inv(&self) -> bool {
        self.backend.faithful() ==> consistent(self.backend@, self.backend.keys())
    }

    /// Whether this store is `before` after an operation: it can still be
    /// worked with, and has the same clock on a backend of the same kind.
    pub open spec fn follows(&self, before: &Self) -> bool {
        &&& self.inv()
        &&& self.backend.faithful() == before.backend.faithful()
        &&& self.backend.reliable() == before.backend.reliable()
        &&& self.clock == before.clock
    }

    /// Creates a store on top of `backend` that reads the time from `clock`,
    /// and upgrades what the backend holds to canonical keys.
    pub fn open(backend: B, clock: C) -> (r: Result<ProgramStore<B, C>, StoreError>)
        requires
            backend.faithful() ==> consistent(backend@, backend.keys()),
        ensures
            r matches Ok(store) ==> store.inv() && store.clock == clock
                && store.backend.faithful() == backend.faithful() && store.backend.reliable()
                == backend.reliable(),
            r matches Err(e) ==> e.kind != ErrorKind::Decode,
            backend.faithful() ==> match r {
                Ok(store) => {
                    &&& store@ == migrated(backend@, backend.keys())
                    &&& all_canonical(store@)
                    &&& foreign_untouched(backend@, store@)
                    &&& programs_kept(backend@, store@)
                },
                Err(e) => e.kind == ErrorKind::Backend && !backend.reliable(),
            },
    {
        let mut store = ProgramStore { backend, clock };
        match store.fixup_names() {
            Ok(()) => Ok(store),
            Err(e) => Err(e),
        }
    }

    /// Renames the entry stored under the key `from` to the key `to`.
    ///
    /// The value is read, then written under `to`, then removed from under
    /// `from`, so that a failure on the way loses nothing.
    pub fn rename(&mut self, from: &Key, to: &Key) -> (r: Result<(), StoreError>)
        requires
            old(self).inv(),
        ensures
            final(self).follows(old(self)),
            r matches Err(e) ==> match e.kind {
                ErrorKind::NotFound => e.message@ == "File not found"@,
                ErrorKind::Backend => e.reports(get_failed(), from@) || e.reports(
                    put_failed(),
                    to@,
                ) || e.reports(remove_failed(), from@),
                ErrorKind::Decode => false,
            },
            old(self).backend.faithful() ==> match r {
                Ok(()) => old(self)@.contains_key(from@) && final(self)@ == renamed(
                    old(self)@,
                    from@,
                    to@,
                ),
                Err(e) => match e.kind {
                    ErrorKind::NotFound => !old(self)@.contains_key(from@) && final(self)@
                        == old(self)@,
                    ErrorKind::Backend => !old(self).backend.reliable() && (final(self)@
                        == old(self)@ || (old(self)@.contains_key(from@) && final(self)@
                        == old(self)@.insert(to@, old(self)@[from@]) && e.reports(
                        remove_failed(),
                        from@,
                    ))),
                    ErrorKind::Decode => false,
                },
            },
    {
        let from = from.serialized();
        let to = to.serialized();

        let raw = match self.backend.get(from) {
            Ok(Some(content)) => content,
            Ok(None) => {
                return Err(StoreError::not_found());
            },
            Err(e) => {
                return Err(
                    StoreError::describe(
                        ErrorKind::Backend,
                        "Failed to get local storage entry with key ",
                        from,
                        e.as_str(),
                    ),
                );
            },
        };

        if let Err(e) = self.backend.set(to, raw.as_str()) {
            return Err(
                StoreError::describe(
                    ErrorKind::Backend,
                    "Failed to put local storage entry with key ",
                    to,
                    e.as_str(),
                ),
            );
        }

        if let Err(e) = self.backend.delete(from) {
            return Err(
                StoreError::describe(
                    ErrorKind::Backend,
                    "Failed to put remove storage entry with key ",
                    from,
                    e.as_str(),
                ),
            );
        }

        Ok(())
    }

    /// Reads the keys of the backend, in the order in which it enumerates
    /// them.
    fn key_list(&self) -> (r: Result<Vec<String>, StoreError>)
        requires
            self.inv(),
        ensures
            r matches Err(e) ==> e.kind == ErrorKind::Backend,
            self.backend.faithful() ==> (r matches Ok(names) ==> names@.len()
                == self.backend.keys().len() && forall|i: int|
                0 <= i < names@.len() ==> names@[i]@ == self.backend.keys()[i]),
            self.backend.faithful() ==> (r is Err ==> !self.backend.reliable()),
    {
        let n = match self.backend.length() {
            Ok(n) => n,
            Err(e) => {
                return Err(StoreError::new(ErrorKind::Backend, e.as_str()));
            },
        };
        let mut names: Vec<String> = Vec::new();
        let mut i: usize = 0;
        while i < n
            invariant
                self.inv(),
                self.backend.faithful() ==> n == self.backend.keys().len(),
                i <= n,
                names@.len() == i,
                self.backend.faithful() ==> forall|j: int|
                    0 <= j < i ==> names@[j]@ == self.backend.keys()[j],
            decreases n - i,
        {
            let key = match self.backend.key(i) {
                Ok(Some(key)) => key,
                Ok(None) => {
                    return Err(StoreError::new(ErrorKind::Backend, "Entry vanished"));
                },
                Err(e) => {
                    let mut index = String::from_str("");
                    push_natural(&mut index, i as u64);
                    return Err(
                        StoreError::describe(
                            ErrorKind::Backend,
                            "Failed to fetch local storage entry with index ",
                            index.as_str(),
                            e.as_str(),
                        ),
                    );
                },
            };
            names.push(key);
            i += 1;
        }
        Ok(names)
    }

    /// Upgrades the store to support case insensitive behavior.
    ///
    /// Every program whose key is not in canonical form, with its name all
    /// in upper case, is renamed to canonical form.  The keys are read
    /// before the first of them is renamed, because a rename changes what
    /// the backend enumerates.
    pub fn fixup_names(&mut self) -> (r: Result<(), StoreError>)
        requires
            old(self).inv(),
        ensures
            final(self).follows(old(self)),
            r matches Err(e) ==> e.kind != ErrorKind::Decode,
            old(self).backend.faithful() ==> foreign_untouched(old(self)@, final(self)@),
            old(self).backend.faithful() ==> programs_kept(old(self)@, final(self)@),
            old(self).backend.faithful() ==> match r {
                Ok(()) => final(self)@ == migrated(old(self)@, old(self).backend.keys())
                    && all_canonical(final(self)@),
                Err(e) => e.kind == ErrorKind::Backend && !old(self).backend.reliable(),
            },
    {
        let names = self.key_list()?;
        let ghost keys = self.backend.keys();
        let ghost start = self@;
        let ghost faithful = self.backend.faithful();
        proof {
            if faithful {
                assert forall|j: int| 0 <= j < keys.len() implies start.contains_key(
                    #[trigger] keys[j],
                ) by {
                    assert(keys.contains(keys[j]));
                }
            }
        }
        let mut i: usize = 0;
        while i < names.len()
            invariant
                self.follows(old(self)),
                faithful == old(self).backend.faithful(),
                start == old(self)@,
                i <= names@.len(),
                faithful ==> consistent(start, keys),
                faithful ==> names@.len() == keys.len(),
                faithful ==> forall|j: int| 0 <= j < names@.len() ==> names@[j]@ == keys[j],
                faithful ==> self@ == migrated(start, keys.take(i as int)),
                faithful ==> forall|j: int|
                    i <= j < keys.len() ==> self@.contains_key(#[trigger] keys[j]),
                faithful ==> forall|j: int|
                    0 <= j < i ==> !(self@.contains_key(#[trigger] keys[j]) && needs_rename(
                        keys[j],
                    )),
                faithful ==> forall|k: Seq<char>|
                    self@.contains_key(k) && needs_rename(k) ==> start.contains_key(k),
                faithful ==> foreign_untouched(start, self@),
                faithful ==> programs_kept(start, self@),
            decreases names@.len() - i,
        {
            let ghost k = keys[i as int];
            let ghost before = self@;
            proof {
                if faithful {
                    assert(keys.take(i as int + 1).drop_last() =~= keys.take(i as int));
                    assert(keys.take(i as int + 1).last() == k);
                    assert(before.contains_key(k));
                    if is_program_key(k) {
                        lemma_canonical_of(k);
                    }
                    assert forall|k0: Seq<char>| start.contains_key(k0) && is_program_key(
                        k0,
                    ) implies canonical_of(canonical_of(k0)) == canonical_of(k0) by {
                        lemma_canonical_of(k0);
                    }
                }
            }
            if let Some(key) = Key::parse(names[i].as_str()) {
                let canonical = key.canonical();
                if !(key == canonical) {
                    match self.rename(&key, &canonical) {
                        Ok(()) => {},
                        Err(e) => {
                            return Err(e);
                        },
                    }
                }
            }
            proof {
                if faithful {
                    assert(self@ == migrate_key(before, k));
                    assert forall|j: int| i + 1 <= j < keys.len() implies self@.contains_key(
                        #[trigger] keys[j],
                    ) by {
                        assert(keys[j] != k);
                    }
                }
            }
            i += 1;
        }
        proof {
            if faithful {
                assert(keys.take(i as int) =~= keys);
                assert forall|k: Seq<char>| self@.contains_key(k) && is_program_key(
                    k,
                ) implies canonical_of(k) == k by {
                    if needs_rename(k) {
                        assert(start.contains_key(k));
                        assert(keys.contains(k));
                        let j = choose|j: int| 0 <= j < keys.len() && keys[j] == k;
                        assert(self@.contains_key(keys[j]));
                    }
                }
            }
        }
        Ok(())
    }

    /// Returns the programs in the store with their listing data, for
    /// display at `offset_minutes` east of UTC, ordered by name.
    ///
    /// Fails on the first entry that cannot be read.
    pub fn enumerate(&self, offset_minutes: i16) -> (r: Result<
        Vec<(String, Metadata)>,
        StoreError,
    >)
        requires
            self.inv(),
        ensures
            r matches Ok(list) ==> sorted_by_name(list@),
            self.backend.faithful() ==> match r {
                Ok(list) => is_listing(list@, self@, offset_minutes),
                Err(e) => match e.kind {
                    ErrorKind::NotFound => false,
                    ErrorKind::Backend => !self.backend.reliable(),
                    ErrorKind::Decode => exists|at: int| #[trigger]
                        first_unreadable(self@, self.backend.keys(), at) && e.reports(
                            parse_failed(),
                            self.backend.keys()[at],
                        ),
                },
            },
    {
        let mut entries: Vec<(String, Metadata)> = Vec::new();

        let n = match self.backend.length() {
            Ok(n) => n,
            Err(e) => {
                return Err(StoreError::new(ErrorKind::Backend, e.as_str()));
            },
        };
        let ghost keys = self.backend.keys();
        let ghost faithful = self.backend.faithful();
        let mut i: usize = 0;
        while i < n
            invariant
                self.inv(),
                keys == self.backend.keys(),
                faithful == self.backend.faithful(),
                faithful ==> n == keys.len(),
                i <= n,
                sorted_by_name(entries@),
                faithful ==> forall|x: int|
                    0 <= x < entries@.len() ==> lists(
                        self@,
                        #[trigger] entries@[x].0@,
                        entries@[x].1,
                        offset_minutes,
                    ),
                faithful ==> forall|x: int|
                    0 <= x < entries@.len() ==> among(keys, i as int, #[trigger] entries@[x].0@),
                faithful ==> forall|j: int|
                    0 <= j < i && is_program_key(keys[j]) ==> has_name(
                        entries@,
                        #[trigger] name_of(keys[j]),
                    ),
                faithful ==> forall|j: int|
                    0 <= j < i && is_program_key(#[trigger] keys[j]) ==> decode_spec(
                        self@[keys[j]],
                    ) is Ok,
            decreases n - i,
        {
            let raw = match self.backend.key(i) {
                Ok(Some(key)) => key,
                Ok(None) => {
                    return Err(StoreError::new(ErrorKind::Backend, "Entry vanished"));
                },
                Err(e) => {
                    let mut index = String::from_str("");
                    push_natural(&mut index, i as u64);
                    return Err(
                        StoreError::describe(
                            ErrorKind::Backend,
                            "Failed to fetch local storage entry with index ",
                            index.as_str(),
                            e.as_str(),
                        ),
                    );
                },
            };
            let ghost k = keys[i as int];
            proof {
                if faithful {
                    assert(keys.contains(k));
                    assert(self@.contains_key(k));
                }
            }

            if let Some(key) = Key::parse(raw.as_str()) {
                let entry = match self.get_entry(&key) {
                    Ok(entry) => entry,
                    Err(e) => {
                        proof {
                            if faithful && e.kind == ErrorKind::Decode {
                                assert(first_unreadable(self@, keys, i as int));
                            }
                        }
                        return Err(e);
                    },
                };
                let name = key.name().to_owned();
                let shown = entry.metadata(offset_minutes);
                let ghost before = entries@;
                proof {
                    if faithful {
                        lemma_program_key_name(k);
                        if has_name(before, name@) {
                            let x = choose|x: int| 0 <= x < before.len() && before[x].0@ == name@;
                            let j = choose|j: int|
                                0 <= j < i && keys[j] == prefix() + before[x].0@;
                            assert(keys[j] == keys[i as int]);
                        }
                    }
                }
                put_in_order(&mut entries, (name, shown));
                proof {
                    if faithful {
                        let at = slot_of(before, name@);
                        assert forall|x: int| 0 <= x < entries@.len() implies lists(
                            self@,
                            #[trigger] entries@[x].0@,
                            entries@[x].1,
                            offset_minutes,
                        ) && among(keys, i + 1, entries@[x].0@) by {
                            if x < at {
                                assert(entries@[x] == before[x]);
                                let j = choose|j: int|
                                    0 <= j < i && keys[j] == prefix() + before[x].0@;
                                assert(keys[j] == prefix() + entries@[x].0@);
                            } else if x == at {
                                assert(entries@[x] == (name, shown));
                                assert(keys[i as int] == prefix() + entries@[x].0@);
                            } else {
                                assert(entries@[x] == before[x - 1]);
                                let j = choose|j: int|
                                    0 <= j < i && keys[j] == prefix() + before[x - 1].0@;
                                assert(keys[j] == prefix() + entries@[x].0@);
                            }
                        }
                    }
                }
            }
            i += 1;
        }
        proof {
            if faithful {
                assert forall|k: Seq<char>| self@.contains_key(k) && is_program_key(
                    k,
                ) implies has_name(entries@, #[trigger] name_of(k)) by {
                    assert(keys.contains(k));
                    let j = choose|j: int| 0 <= j < keys.len() && keys[j] == k;
                    assert(has_name(entries@, name_of(keys[j])));
                }
            }
        }
        Ok(entries)
    }

    /// Obtains and parses the entry stored under `key`.
    pub fn get_entry(&self, key: &Key) -> (r: Result<Entry, StoreError>)
        requires
            self.inv(),
        ensures
            r matches Ok(entry) ==> entry.version == VERSION && entry.mtime.valid(),
            r matches Err(e) ==> match e.kind {
                ErrorKind::NotFound => e.message@ == "File not found"@,
                ErrorKind::Backend => e.reports(get_failed(), key@),
                ErrorKind::Decode => e.reports(parse_failed(), key@),
            },
            self.backend.faithful() ==> match r {
                Ok(entry) => self@.contains_key(key@) && decode_spec(self@[key@]) == Ok::<
                    Record,
                    DecodeKind,
                >(entry@),
                Err(e) => match e.kind {
                    ErrorKind::NotFound => !self@.contains_key(key@),
                    ErrorKind::Backend => !self.backend.reliable(),
                    ErrorKind::Decode => self@.contains_key(key@) && decode_spec(
                        self@[key@],
                    ) is Err,
                },
            },
    {
        let key = key.serialized();
        let raw = match self.backend.get(key) {
            Ok(Some(content)) => content,
            Ok(None) => {
                return Err(StoreError::not_found());
            },
            Err(e) => {
                return Err(
                    StoreError::describe(
                        ErrorKind::Backend,
                        "Failed to get local storage entry with key ",
                        key,
                        e.as_str(),
                    ),
                );
            },
        };

        match Entry::decode(raw.as_str()) {
            Ok(entry) => Ok(entry),
            Err(e) => Err(
                StoreError::describe(
                    ErrorKind::Decode,
                    "Failed to parse local storage entry with key ",
                    key,
                    e.detail.as_str(),
                ),
            ),
        }
    }

    /// Deletes the program called `name`.
    ///
    /// A failure of the backend to say whether the program exists is passed
    /// over: the deletion is attempted all the same.
    pub fn delete(&mut self, name: &str) -> (r: Result<(), StoreError>)
        requires
            old(self).inv(),
            is_program_name(name@),
        ensures
            final(self).follows(old(self)),
            r matches Err(e) ==> match e.kind {
                ErrorKind::NotFound => e.message@ == "File not found"@,
                ErrorKind::Backend => e.reports(remove_failed(), key_for(name@)),
                ErrorKind::Decode => false,
            },
            old(self).backend.faithful() ==> match r {
                Ok(()) => {
                    &&& final(self)@ == old(self)@.remove(key_for(name@))
                    &&& old(self).backend.reliable() ==> old(self)@.contains_key(key_for(name@))
                },
                Err(e) => final(self)@ == old(self)@ && match e.kind {
                    ErrorKind::NotFound => !old(self)@.contains_key(key_for(name@)),
                    ErrorKind::Backend => !old(self).backend.reliable(),
                    ErrorKind::Decode => false,
                },
            },
    {
        let key = Key::for_name(name);
        let key = key.serialized();

        match self.backend.get(key) {
            Ok(Some(_)) => {},
            Ok(None) => {
                return Err(StoreError::not_found());
            },
            Err(_) => {},
        }

        match self.backend.delete(key) {
            Ok(()) => Ok(()),
            Err(e) => Err(
                StoreError::describe(
                    ErrorKind::Backend,
                    "Failed to put remove storage entry with key ",
                    key,
                    e.as_str(),
                ),
            ),
        }
    }

    /// Returns the content of the program called `name`.
    pub fn get(&self, name: &str) -> (r: Result<String, StoreError>)
        requires
            self.inv(),
            is_program_name(name@),
        ensures
            r matches Err(e) ==> match e.kind {
                ErrorKind::NotFound => e.message@ == "File not found"@,
                ErrorKind::Backend => e.reports(get_failed(), key_for(name@)),
                ErrorKind::Decode => e.reports(parse_failed(), key_for(name@)),
            },
            self.backend.faithful() ==> match r {
                Ok(content) => self@.contains_key(key_for(name@)) && (decode_spec(
                    self@[key_for(name@)],
                ) matches Ok(rec) && rec.content == content@),
                Err(e) => match e.kind {
                    ErrorKind::NotFound => !self@.contains_key(key_for(name@)),
                    ErrorKind::Backend => !self.backend.reliable(),
                    ErrorKind::Decode => self@.contains_key(key_for(name@)) && decode_spec(
                        self@[key_for(name@)],
                    ) is Err,
                },
            },
    {
        let entry = self.get_entry(&Key::for_name(name))?;
        Ok(entry.content)
    }

    /// Stores `content` as the program called `name`, in place of any
    /// program of that name, with the clock's current time as its
    /// modification time.
    pub fn put(&mut self, name: &str, content: &str) -> (r: Result<(), StoreError>)
        requires
            old(self).inv(),
            is_program_name(name@),
        ensures
            final(self).follows(old(self)),
            r matches Err(e) ==> e.kind == ErrorKind::Backend && e.reports(
                put_failed(),
                key_for(name@),
            ),
            old(self).backend.faithful() ==> match r {
                Ok(()) => exists|t: Timestamp| #[trigger]
                    old(self).clock.admits(t) && t.valid() && final(self)@ == old(self)@.insert(
                        key_for(name@),
                        record_text(Record { version: VERSION, content: content@, mtime: t }),
                    ),
                Err(e) => !old(self).backend.reliable() && final(self)@ == old(self)@,
            },
    {
        let key = Key::for_name(name);

        // Nothing of the old entry is kept, so it is replaced in one go.
        let entry = Entry::new(content, self.clock.now());

        let key = key.serialized();
        match self.backend.set(key, entry.encode().as_str()) {
            Ok(()) => Ok(()),
            Err(e) => Err(
                StoreError::describe(
                    ErrorKind::Backend,
                    "Failed to put local storage entry with key ",
                    key,
                    e.as_str(),
                ),
            ),
        }
    }
}

} // verus!
