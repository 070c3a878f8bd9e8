use endbasic_store::backend::Backend;
use endbasic_store::clock::FixedClock;
use endbasic_store::entry::{Entry, VERSION};
use endbasic_store::error::ErrorKind;
use endbasic_store::memory::MemoryBackend;
use endbasic_store::store::ProgramStore;
use endbasic_store::timestamp::Timestamp;

/// Offset from UTC, in minutes, at which the tests ask for listings.
const OFFSET: i16 = 120;

fn at(seconds: i64) -> Timestamp {
    Timestamp::from_unix_timestamp(seconds).unwrap()
}

fn store_at(seconds: i64) -> ProgramStore<MemoryBackend, FixedClock> {
    ProgramStore::open(MemoryBackend::new(), FixedClock::new(at(seconds))).unwrap()
}

#[test]
fn test_webstore_fixup_names() {
    let mut webstore = store_at(0);
    webstore.backend.set("endbasic-program:lower.bas", "").unwrap();
    webstore.backend.set("endbasic-program:UPPER.BAS", "").unwrap();
    webstore.fixup_names().unwrap();

    assert!(webstore.backend.get("endbasic-program:lower.bas").unwrap().is_none());
    webstore.backend.get("endbasic-program:LOWER.BAS").unwrap().unwrap();
    webstore.backend.get("endbasic-program:UPPER.BAS").unwrap().unwrap();
    assert_eq!(2, webstore.backend.length().unwrap());
}

#[test]
fn test_webstore_delete_ok() {
    let mut webstore = store_at(0);
    webstore.backend.set("endbasic-program:FIRST.BAS", "").unwrap();
    webstore.backend.set("endbasic-program:FIRST.BAT", "").unwrap();

    webstore.delete("first.bas").unwrap();
    assert!(webstore.backend.get("endbasic-program:FIRST.BAS").unwrap().is_none());
    webstore.backend.get("endbasic-program:FIRST.BAT").unwrap().unwrap();
}

#[test]
fn test_webstore_delete_missing_file() {
    let mut webstore = store_at(0);

    let e = webstore.delete("first.bas").unwrap_err();
    assert_eq!("File not found", e.message());
    assert_eq!(ErrorKind::NotFound, e.kind);
}

#[test]
fn test_webstore_enumerate() {
    let entry1 = Entry { version: VERSION, content: "first".to_owned(), mtime: at(1234) };
    let entry2 = Entry { version: VERSION, content: "second".to_owned(), mtime: at(987_654_321) };

    let mut webstore = store_at(0);
    webstore.backend.set("endbasic-program:FIRST.BAS", &entry1.encode()).unwrap();
    webstore.backend.set("endbasic-program:SECOND SPACES.BAS", &entry2.encode()).unwrap();
    webstore.backend.set("first.bas", "ignore me").unwrap();
    webstore.backend.set("endbasic-program:", "ignore me").unwrap();

    let entries = webstore.enumerate(OFFSET).unwrap();
    assert_eq!(2, entries.len());
    assert_eq!(("FIRST.BAS".to_owned(), entry1.metadata(OFFSET)), entries[0]);
    assert_eq!(("SECOND SPACES.BAS".to_owned(), entry2.metadata(OFFSET)), entries[1]);
    assert_eq!(5, entries[0].1.length);
    assert_eq!(at(1234), entries[0].1.date);
    assert_eq!(OFFSET, entries[0].1.offset_minutes);
    assert_eq!(6, entries[1].1.length);
    assert_eq!(at(987_654_321), entries[1].1.date);
}

#[test]
fn test_webstore_get() {
    let entry = Entry { version: VERSION, content: "second".to_owned(), mtime: at(1234) };

    let mut webstore = store_at(0);
    webstore.backend.set("endbasic-program:A.BAS", "first").unwrap();
    webstore.backend.set("endbasic-program:B.BAS", &entry.encode()).unwrap();
    webstore.backend.set("endbasic-program:B.BAT", "third").unwrap();
    webstore.backend.set("B.BAS", "fourth").unwrap();

    assert_eq!(entry.content, webstore.get("B.BAS").unwrap());
}

#[test]
fn test_webstore_put() {
    let entry = Entry {
        version: VERSION,
        content: "this is some content".to_owned(),
        mtime: at(1_234_567),
    };

    let mut webstore = store_at(1_234_567);
    webstore.put("code.bas", &entry.content).unwrap();

    assert_eq!(
        entry.encode(),
        webstore.backend.get("endbasic-program:CODE.BAS").unwrap().unwrap()
    );
    assert_eq!(
        "{\"version\":1,\"content\":\"this is some content\",\"mtime\":[1970,15,24967,0]}",
        webstore.backend.get("endbasic-program:CODE.BAS").unwrap().unwrap()
    );
}

#[test]
fn test_put_then_get_ignores_case() {
    let mut store = store_at(77);
    store.put("Code.Bas", "10 PRINT \"hi\"\n").unwrap();
    for name in ["code.bas", "CODE.BAS", "cOdE.bAs", "Code.Bas"] {
        assert_eq!("10 PRINT \"hi\"\n", store.get(name).unwrap());
    }
    assert_eq!(Ok(1), store.backend.length());
    assert_eq!(Ok(Some("endbasic-program:CODE.BAS".to_owned())), store.backend.key(0));
}

#[test]
fn test_put_overwrites() {
    let mut store = store_at(77);
    store.put("code.bas", "old").unwrap();
    store.put("CODE.bas", "new").unwrap();
    assert_eq!("new", store.get("code.BAS").unwrap());
    assert_eq!(Ok(1), store.backend.length());
    store.put("other.bas", "").unwrap();
    assert_eq!("", store.get("OTHER.BAS").unwrap());
    assert_eq!("new", store.get("code.bas").unwrap());
    assert_eq!(Ok(2), store.backend.length());
}

#[test]
fn test_put_stamps_the_time_of_the_clock() {
    let mut store = store_at(1_600_000_000);
    store.put("code.bas", "text").unwrap();
    let entry = store.get_entry(&endbasic_store::key::Key::for_name("CODE.BAS")).unwrap();
    assert_eq!(at(1_600_000_000), entry.mtime);
    assert_eq!(Timestamp { year: 2020, ordinal: 257, second: 44_800, nanosecond: 0 }, entry.mtime);
    assert_eq!(VERSION, entry.version);
    assert_eq!("text", entry.content);

    store.clock = FixedClock::new(Timestamp {
        year: 1999,
        ordinal: 365,
        second: 86_399,
        nanosecond: 123_456_789,
    });
    store.put("code.bas", "text").unwrap();
    assert_eq!(
        Ok(Some(
            "{\"version\":1,\"content\":\"text\",\"mtime\":[1999,365,86399,123456789]}".to_owned()
        )),
        store.backend.get("endbasic-program:CODE.BAS")
    );
}

#[test]
fn test_get_errors() {
    let mut store = store_at(0);
    store.backend.set("endbasic-program:BAD.BAS", "not an entry").unwrap();
    store.backend.set("endbasic-program:OLD.BAS", "{\"version\":2,\"content\":\"\",\"mtime\":[1970,1,0,0]}").unwrap();
    store.backend.set("endbasic-program:lower.bas", &Entry::new("x", at(0)).encode()).unwrap();

    let e = store.get("missing.bas").unwrap_err();
    assert_eq!(ErrorKind::NotFound, e.kind);
    assert_eq!("File not found", e.message());

    let e = store.get("bad.bas").unwrap_err();
    assert_eq!(ErrorKind::Decode, e.kind);
    assert!(e
        .message()
        .starts_with("Failed to parse local storage entry with key endbasic-program:BAD.BAS: "));

    let e = store.get("old.bas").unwrap_err();
    assert_eq!(ErrorKind::Decode, e.kind);
    assert_eq!(
        "Failed to parse local storage entry with key endbasic-program:OLD.BAS: unsupported schema version",
        e.message()
    );

    // Only canonical keys are looked up.
    assert_eq!(ErrorKind::NotFound, store.get("lower.bas").unwrap_err().kind);
}

#[test]
fn test_delete_leaves_others() {
    let mut store = store_at(0);
    store.put("first.bas", "1").unwrap();
    store.put("second.bas", "2").unwrap();
    store.backend.set("endbasic-program:first.bas", "legacy").unwrap();
    store.backend.set("FIRST.BAS", "foreign").unwrap();

    store.delete("FIRST.bas").unwrap();
    assert_eq!(ErrorKind::NotFound, store.get("first.bas").unwrap_err().kind);
    assert_eq!("2", store.get("second.bas").unwrap());
    assert_eq!(Ok(Some("legacy".to_owned())), store.backend.get("endbasic-program:first.bas"));
    assert_eq!(Ok(Some("foreign".to_owned())), store.backend.get("FIRST.BAS"));
    assert_eq!(Ok(3), store.backend.length());

    assert_eq!(ErrorKind::NotFound, store.delete("first.bas").unwrap_err().kind);
    assert_eq!(Ok(3), store.backend.length());
}

#[test]
fn test_fixup_names_renames_every_key() {
    let mut store = store_at(0);
    for key in [
        "endbasic-program:a.bas",
        "endbasic-program:b.bas",
        "endbasic-program:C.BAS",
        "endbasic-program:d.Bas",
        "endbasic-program:e.bat",
        "other:f.bas",
        "endbasic-program:",
    ] {
        store.backend.set(key, key).unwrap();
    }
    store.fixup_names().unwrap();

    for (key, value) in [
        ("endbasic-program:A.BAS", "endbasic-program:a.bas"),
        ("endbasic-program:B.BAS", "endbasic-program:b.bas"),
        ("endbasic-program:C.BAS", "endbasic-program:C.BAS"),
        ("endbasic-program:D.BAS", "endbasic-program:d.Bas"),
        ("endbasic-program:e.bat", "endbasic-program:e.bat"),
        ("other:f.bas", "other:f.bas"),
        ("endbasic-program:", "endbasic-program:"),
    ] {
        assert_eq!(Ok(Some(value.to_owned())), store.backend.get(key));
    }
    assert_eq!(Ok(7), store.backend.length());

    // A second pass finds nothing to do.
    store.fixup_names().unwrap();
    assert_eq!(Ok(7), store.backend.length());
    assert_eq!(
        Ok(Some("endbasic-program:a.bas".to_owned())),
        store.backend.get("endbasic-program:A.BAS")
    );
}

#[test]
fn test_fixup_names_merges_spellings() {
    let mut store = store_at(0);
    store.backend.set("endbasic-program:X.BAS", "upper").unwrap();
    store.backend.set("endbasic-program:x.bas", "lower").unwrap();
    store.fixup_names().unwrap();

    assert_eq!(Ok(1), store.backend.length());
    assert_eq!(Ok(Some("lower".to_owned())), store.backend.get("endbasic-program:X.BAS"));
}

#[test]
fn test_open_migrates() {
    let mut backend = MemoryBackend::new();
    backend.set("endbasic-program:lower.bas", &Entry::new("text", at(5)).encode()).unwrap();
    backend.set("unrelated", "value").unwrap();
    let store = ProgramStore::open(backend, FixedClock::new(at(0))).unwrap();

    assert_eq!("text", store.get("lower.bas").unwrap());
    assert_eq!(Ok(None), store.backend.get("endbasic-program:lower.bas"));
    assert_eq!(Ok(Some("value".to_owned())), store.backend.get("unrelated"));
}

#[test]
fn test_enumerate_orders_by_name() {
    let mut store = store_at(9);
    for name in ["zeta.bas", "Alpha.bas", "mid dle.bas", "ALPHABET.bas", "_.bas", "0.bas"] {
        store.put(name, name).unwrap();
    }
    store.backend.set("endbasic-program:legacy.bas", &Entry::new("", at(3)).encode()).unwrap();

    let entries = store.enumerate(0).unwrap();
    let names: Vec<&str> = entries.iter().map(|(name, _)| name.as_str()).collect();
    assert_eq!(
        vec!["0.BAS", "ALPHA.BAS", "ALPHABET.BAS", "MID DLE.BAS", "ZETA.BAS", "_.BAS", "legacy.bas"],
        names
    );
    assert_eq!(9, entries[1].1.length);
    assert_eq!(at(9), entries[1].1.date);
    assert_eq!(0, entries[6].1.length);
    assert_eq!(at(3), entries[6].1.date);
}

#[test]
fn test_enumerate_empty() {
    let mut store = store_at(9);
    assert!(store.enumerate(0).unwrap().is_empty());
    store.backend.set("unrelated", "value").unwrap();
    assert!(store.enumerate(0).unwrap().is_empty());
}

#[test]
fn test_enumerate_fails_on_undecodable_entry() {
    let mut store = store_at(9);
    store.put("good.bas", "fine").unwrap();
    store.backend.set("endbasic-program:BAD.BAS", "{}").unwrap();
    store.put("more.bas", "fine").unwrap();

    let e = store.enumerate(0).unwrap_err();
    assert_eq!(ErrorKind::Decode, e.kind);
    assert!(e
        .message()
        .starts_with("Failed to parse local storage entry with key endbasic-program:BAD.BAS: "));

    store.delete("bad.bas").unwrap();
    assert_eq!(2, store.enumerate(0).unwrap().len());
}
