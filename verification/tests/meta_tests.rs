use persist::check_meta_version_maybe_delete_data;
use persist::Atomicity;
use persist::Blob;
use persist::BlobRead;
use persist::LockInfo;
use persist::MemBlob;
use persist::ENCODING_VERSION;

fn open_blob(path: &str) -> MemBlob {
    let mut blob = MemBlob::new(path.to_string());
    let li = LockInfo::new_no_reentrance("".to_string());
    blob.open_exclusive(&li).unwrap();
    blob
}

#[test]
fn check_meta_version() {
    let mut blob = open_blob("path0");

    let mut val = vec![ENCODING_VERSION];
    let current_version = val[0];

    // This test needs to be able to increment and decrement the current
    // version.
    assert!(current_version > 0 && current_version < u8::MAX);
    let (future_version, prev_version) = (current_version + 1, current_version - 1);

    // Blob without meta. No-op.
    check_meta_version_maybe_delete_data(&mut blob).unwrap();
    assert_eq!(blob.list_keys().unwrap(), Vec::<String>::new());

    // encoded_version == current version. No-op.
    blob.set("META", val.clone(), Atomicity::RequireAtomic).unwrap();
    check_meta_version_maybe_delete_data(&mut blob).unwrap();
    assert_eq!(blob.list_keys().unwrap(), vec!["META".to_string()]);

    // encoded_version > current_version. Should return an error indicating
    // encoded_version is from the future, and not modify the blob.
    val[0] = future_version;
    blob.set("META", val.clone(), Atomicity::RequireAtomic).unwrap();
    assert!(check_meta_version_maybe_delete_data(&mut blob).is_err());
    assert_eq!(blob.list_keys().unwrap(), vec!["META".to_string()]);

    // encoded_version < current_version. Should delete all existing keys,
    // and not return any errors.
    val[0] = prev_version;
    blob.set("META", val.clone(), Atomicity::RequireAtomic).unwrap();
    check_meta_version_maybe_delete_data(&mut blob).unwrap();
    assert_eq!(blob.list_keys().unwrap(), Vec::<String>::new());
}

#[test]
fn meta_version_guard_scenario() {
    // A store whose META encodes version current+1: the guard fails and the
    // store is untouched.
    let mut blob = open_blob("p");
    blob.set("user-key", b"payload".to_vec(), Atomicity::AllowNonAtomic).unwrap();
    blob.set("META", vec![ENCODING_VERSION + 1], Atomicity::RequireAtomic).unwrap();
    let err = check_meta_version_maybe_delete_data(&mut blob).unwrap_err();
    assert!(err.message().contains("invalid persistence version"));
    assert_eq!(blob.get("user-key").unwrap(), Some(b"payload".to_vec()));
    assert_eq!(blob.get("META").unwrap(), Some(vec![ENCODING_VERSION + 1]));

    // Version current-1: the guard deletes all keys and succeeds.
    let mut blob = open_blob("p2");
    blob.set("user-key", b"payload".to_vec(), Atomicity::AllowNonAtomic).unwrap();
    blob.set("META", vec![ENCODING_VERSION - 1], Atomicity::RequireAtomic).unwrap();
    check_meta_version_maybe_delete_data(&mut blob).unwrap();
    assert_eq!(blob.list_keys().unwrap(), Vec::<String>::new());
    assert_eq!(blob.get("user-key").unwrap(), None);
    assert_eq!(blob.get("META").unwrap(), None);
}

#[test]
fn meta_version_guard_exact_error() {
    let mut blob = open_blob("p");
    blob.set("META", vec![ENCODING_VERSION + 1], Atomicity::RequireAtomic).unwrap();
    let err = check_meta_version_maybe_delete_data(&mut blob).unwrap_err();
    let expected = format!(
        "invalid persistence version found {} can only read {}. hint: upgrade this process, or delete the previously persisted data.",
        ENCODING_VERSION + 1,
        ENCODING_VERSION
    );
    assert_eq!(err.message(), expected);
}

#[test]
fn meta_version_guard_needs_a_version_byte() {
    let mut blob = open_blob("p");
    blob.set("user-key", b"payload".to_vec(), Atomicity::AllowNonAtomic).unwrap();
    blob.set("META", Vec::new(), Atomicity::RequireAtomic).unwrap();
    assert!(check_meta_version_maybe_delete_data(&mut blob).is_err());
    // The store is untouched.
    assert_eq!(blob.get("user-key").unwrap(), Some(b"payload".to_vec()));
}

#[test]
fn meta_version_guard_closed_blob_fails() {
    let mut blob = open_blob("p");
    blob.close().unwrap();
    assert!(check_meta_version_maybe_delete_data(&mut blob).is_err());
}

#[test]
fn encoded_version_reads_first_byte() {
    assert_eq!(persist::meta::encoded_version(&vec![7u8, 99, 99]), Ok(7));
    assert!(persist::meta::encoded_version(&Vec::new()).is_err());
}
