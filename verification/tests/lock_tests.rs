use persist::Error;
use persist::LockInfo;

#[test]
fn lock_info() {
    // Invalid reentrance_id.
    assert_eq!(
        LockInfo::new("foo\n".to_string(), "bar".to_string()),
        Err(String::from("reentrance_id cannot contain newlines got:\nfoo\n").into())
    );

    // Roundtrip-able through the serialized format.
    let l = LockInfo::new("foo".to_owned(), "bar".to_owned()).unwrap();
    assert_eq!(l.serialize(), "foo\nbar");
    assert_eq!(LockInfo::parse(&l.serialize()).unwrap(), l);

    // Reentrance
    assert_eq!(
        LockInfo::new("foo".to_owned(), "".to_owned())
            .unwrap()
            .check_reentrant_for("", &l.serialize()),
        Ok(())
    );
    assert_eq!(
        LockInfo::new("baz".to_owned(), "".to_owned())
            .unwrap()
            .check_reentrant_for("", &l.serialize()),
        Err(String::from("location \"\" was already_locked:\nfoo\nbar").into())
    );
}

#[test]
fn lock_info_empty_contents_is_unlocked() {
    let l = LockInfo::new("foo".to_owned(), "bar".to_owned()).unwrap();
    assert_eq!(l.check_reentrant_for("somewhere", ""), Ok(()));
}

#[test]
fn lock_info_invalid_format() {
    let l = LockInfo::new("foo".to_owned(), "bar".to_owned()).unwrap();
    assert_eq!(
        l.check_reentrant_for("somewhere", "no newline here"),
        Err(Error::new("invalid LOCK format: no newline here"))
    );
    assert!(LockInfo::parse("no newline here").is_err());
}

#[test]
fn lock_info_details_may_hold_newlines() {
    let l = LockInfo::new("id".to_owned(), "line one\nline two".to_owned()).unwrap();
    assert_eq!(l.serialize(), "id\nline one\nline two");
    // Parsing splits at the first newline only.
    let parsed = LockInfo::parse(&l.serialize()).unwrap();
    assert_eq!(parsed, l);
}

#[test]
fn lock_info_no_reentrance_has_clean_id() {
    let l = LockInfo::new_no_reentrance("details".to_owned());
    let s = l.serialize();
    // The generated reentrance id never holds a newline, so the serialized
    // form parses back to the same token.
    assert_eq!(LockInfo::parse(&s).unwrap(), l);
    // Two tokens from the same helper are reentrant with themselves.
    assert_eq!(l.check_reentrant_for("p", &s), Ok(()));
}
