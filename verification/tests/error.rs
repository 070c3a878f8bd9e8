use endbasic_store::error::{ErrorKind, StoreError};
use endbasic_store::ordered::{find_slot, put_in_order};

#[test]
fn test_store_error_not_found() {
    let e = StoreError::not_found();
    assert_eq!(ErrorKind::NotFound, e.kind);
    assert_eq!("File not found", e.message());
    assert_eq!("File not found", e.message);
}

#[test]
fn test_store_error_new() {
    let e = StoreError::new(ErrorKind::Backend, "Entry vanished");
    assert_eq!(ErrorKind::Backend, e.kind);
    assert_eq!("Entry vanished", e.message());
    let e = StoreError::new(ErrorKind::Decode, "");
    assert_eq!(ErrorKind::Decode, e.kind);
    assert_eq!("", e.message());
}

#[test]
fn test_store_error_describe() {
    let e = StoreError::describe(
        ErrorKind::Backend,
        "Failed to get local storage entry with key ",
        "endbasic-program:A.BAS",
        "JsValue(\"denied\")",
    );
    assert_eq!(ErrorKind::Backend, e.kind);
    assert_eq!(
        "Failed to get local storage entry with key endbasic-program:A.BAS: JsValue(\"denied\")",
        e.message()
    );
    let e = StoreError::describe(ErrorKind::Decode, "", "", "");
    assert_eq!(": ", e.message());
}

fn names(list: &Vec<(String, u8)>) -> Vec<(&str, u8)> {
    list.iter().map(|(name, value)| (name.as_str(), *value)).collect()
}

#[test]
fn test_put_in_order() {
    let mut list: Vec<(String, u8)> = Vec::new();
    for (name, value) in [("m", 1), ("a", 2), ("z", 3), ("ma", 4), ("", 5), ("Z", 6), ("é", 7)] {
        put_in_order(&mut list, (name.to_owned(), value));
    }
    assert_eq!(
        vec![("", 5), ("Z", 6), ("a", 2), ("m", 1), ("ma", 4), ("z", 3), ("é", 7)],
        names(&list)
    );

    put_in_order(&mut list, ("m".to_owned(), 8));
    put_in_order(&mut list, ("".to_owned(), 9));
    put_in_order(&mut list, ("é".to_owned(), 10));
    assert_eq!(
        vec![("", 9), ("Z", 6), ("a", 2), ("m", 8), ("ma", 4), ("z", 3), ("é", 10)],
        names(&list)
    );
}

#[test]
fn test_find_slot() {
    let list: Vec<(String, u8)> =
        vec![("b".to_owned(), 0), ("d".to_owned(), 0), ("da".to_owned(), 0)];
    assert_eq!((0, false), find_slot(&list, ""));
    assert_eq!((0, false), find_slot(&list, "a"));
    assert_eq!((0, true), find_slot(&list, "b"));
    assert_eq!((1, false), find_slot(&list, "c"));
    assert_eq!((1, true), find_slot(&list, "d"));
    assert_eq!((2, false), find_slot(&list, "d "));
    assert_eq!((2, true), find_slot(&list, "da"));
    assert_eq!((3, false), find_slot(&list, "e"));
    assert_eq!((0, false), find_slot(&Vec::<(String, u8)>::new(), "e"));
}
