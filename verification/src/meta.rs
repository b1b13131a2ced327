//! The store-format version guard run once at startup.

use vstd::prelude::*;

use crate::blob::{is_key_list, Blob, BlobRead, BlobState};
use crate::decimal::{spec_decimal, u64_to_decimal};
use crate::errors::Error;

verus! {

/// The store-format version this build understands, recorded as the first
/// byte of the reserved `"META"` blob entry. Always strictly between 0
/// and 255.
pub const ENCODING_VERSION: u8 = 9;

/// Extracts the format version encoded in a metadata value: its first byte.
/// Errors on an empty value.
pub fn encoded_version(meta: &Vec<u8>) -> (r: Result<u8, Error>)
    ensures
        match r {
            Ok(v) => meta@.len() > 0 && v == meta@[0],
            Err(_) => meta@.len() == 0,
        },
{
    if meta.len() == 0 {
        Err(Error::new("metadata value holds no version byte"))
    } else {
        Ok(meta[0])
    }
}

/// The set of the first `i` keys of `keys`.
pub open spec fn keys_prefix_set(keys: Seq<Seq<char>>, i: int) -> Set<Seq<char>> {
    Set::new(|k: Seq<char>| exists|j: int| 0 <= j < i && keys[j] == k)
}

/// Checks the store-format version recorded under the blob's reserved
/// `"META"` key and deletes all data if the store was written by an older
/// build.
///
/// - No `"META"` value: a fresh store; nothing is done.
/// - Version equal to [`ENCODING_VERSION`]: nothing is done.
/// - Version below it: the store predates this build's understanding of the
///   format, so every key is deleted — a full reset, a stopgap in place of a
///   real migration scheme.
/// - Version above it: the data was written by a newer build; the call fails
///   without touching the store, naming both versions, so that no data is
///   lost in what may be a deliberate downgrade the operator must resolve.
///
/// Fails without touching the store if the blob is closed or the metadata
/// value is empty.
pub fn check_meta_version_maybe_delete_data<B: Blob>(b: &mut B) -> (r: Result<(), Error>)
    requires
        old(b).inv(),
    ensures
        final(b).inv(),
        !old(b).state().open ==> r is Err && final(b).state() == old(b).state(),
        ({
            let c = old(b).state().contents;
            old(b).state().open ==> {
                &&& !c.dom().contains("META"@) ==> r == Ok::<(), Error>(()) && final(b).state()
                    == old(b).state()
                &&& c.dom().contains("META"@) && c["META"@].len() == 0 ==> r is Err
                    && final(b).state() == old(b).state()
                &&& c.dom().contains("META"@) && c["META"@].len() > 0 && c["META"@][0]
                    == ENCODING_VERSION ==> r == Ok::<(), Error>(())
                    && final(b).state() == old(b).state()
                &&& c.dom().contains("META"@) && c["META"@].len() > 0 && c["META"@][0]
                    < ENCODING_VERSION ==> r == Ok::<(), Error>(()) && final(b).state() == (
                BlobState {
                    contents: Map::<Seq<char>, Seq<u8>>::empty(),
                    ..old(b).state()
                })
                &&& c.dom().contains("META"@) && c["META"@].len() > 0 && c["META"@][0]
                    > ENCODING_VERSION ==> final(b).state() == old(b).state() && (match r {
                    Err(e) => e@ == "invalid persistence version found "@ + spec_decimal(
                        c["META"@][0] as nat,
                    ) + " can only read "@ + spec_decimal(ENCODING_VERSION as nat)
                        + ". hint: upgrade this process, or delete the previously persisted data."@,
                    Ok(_) => false,
                })
            }
        }),
{
    let meta = match b.get("META") {
        Ok(Some(bytes)) => bytes,
        Ok(None) => {
            return Ok(());
        },
        Err(e) => {
            return Err(e);
        },
    };
    let persisted_version = match encoded_version(&meta) {
        Ok(v) => v,
        Err(e) => {
            return Err(e);
        },
    };
    let current_version = ENCODING_VERSION;
    if current_version == persisted_version {
        // Everything is as this build expects.
        Ok(())
    } else if current_version > persisted_version {
        // The store was written by an older build: delete every key, the
        // reserved metadata included.
        let keys = match b.list_keys() {
            Ok(keys) => keys,
            Err(e) => {
                return Err(e);
            },
        };
        let ghost c0 = old(b).state().contents;
        let ghost kv = keys.deep_view();
        let mut i: usize = 0;
        while i < keys.len()
            invariant
                b.inv(),
                b.state().open == old(b).state().open,
                b.state().open,
                b.state().lock == old(b).state().lock,
                i <= kv.len(),
                kv == keys.deep_view(),
                is_key_list(kv, c0.dom()),
                b.state().contents == c0.remove_keys(keys_prefix_set(kv, i as int)),
            decreases kv.len() - i,
        {
            let ghost pre = b.state().contents;
            match b.delete(keys[i].as_str()) {
                Ok(()) => {},
                Err(e) => {
                    return Err(e);
                },
            }
            proof {
                assert(b.state().contents =~~= c0.remove_keys(keys_prefix_set(kv, i + 1))) by {
                    assert forall|k: Seq<char>|
                        keys_prefix_set(kv, i + 1).contains(k) <==> (keys_prefix_set(
                            kv,
                            i as int,
                        ).contains(k) || k == kv[i as int]) by {
                        if keys_prefix_set(kv, i + 1).contains(k) {
                            let j = choose|j: int| 0 <= j < i + 1 && kv[j] == k;
                            if j < i {
                                assert(keys_prefix_set(kv, i as int).contains(k));
                            }
                        }
                        if keys_prefix_set(kv, i as int).contains(k) {
                            let j = choose|j: int| 0 <= j < i && kv[j] == k;
                            assert(0 <= j < i + 1 && kv[j] == k);
                        }
                        if k == kv[i as int] {
                            assert(0 <= (i as int) < i + 1 && kv[i as int] == k);
                        }
                    }
                }
            }
            i = i + 1;
        }
        proof {
            assert(b.state().contents =~~= Map::<Seq<char>, Seq<u8>>::empty()) by {
                assert forall|k: Seq<char>|
                    !b.state().contents.dom().contains(k) by {
                    if c0.dom().contains(k) {
                        let j = choose|j: int| 0 <= j < kv.len() && kv[j] == k;
                        assert(keys_prefix_set(kv, kv.len() as int).contains(k));
                    }
                }
            }
        }
        Ok(())
    } else {
        // The store was written by a newer build: refuse to touch it.
        let mut message = String::from_str("invalid persistence version found ");
        message.append(u64_to_decimal(persisted_version as u64).as_str());
        message.append(" can only read ");
        message.append(u64_to_decimal(current_version as u64).as_str());
        message.append(". hint: upgrade this process, or delete the previously persisted data.");
        proof {
            assert(message@ =~= "invalid persistence version found "@ + spec_decimal(
                persisted_version as nat,
            ) + " can only read "@ + spec_decimal(ENCODING_VERSION as nat)
                + ". hint: upgrade this process, or delete the previously persisted data."@);
        }
        Err(Error::from_string(message))
    }
}

} // verus!
