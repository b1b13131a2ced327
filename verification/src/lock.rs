//! Reentrance-aware exclusive-writer lock tokens.

use vstd::prelude::*;

use crate::errors::Error;

verus! {

/// The two component strings of a [`LockInfo`].
pub struct LockInfoView {
    pub reentrance_id: Seq<char>,
    pub details: Seq<char>,
}

impl LockInfoView {
    /// A lock token is valid when its reentrance id contains no newline, so
    /// that its serialized form can be split back unambiguously.
    pub open spec fn valid(self) -> bool {
        !has_newline(self.reentrance_id)
    }
}

/// Whether a character sequence contains a newline.
pub open spec fn has_newline(s: Seq<char>) -> bool {
    exists|i: int| 0 <= i < s.len() && s[i] == '\n'
}

/// Whether position `i` holds the first newline of `s`.
pub open spec fn newline_at(s: Seq<char>, i: int) -> bool {
    &&& 0 <= i < s.len()
    &&& s[i] == '\n'
    &&& forall|j: int| 0 <= j < i ==> s[j] != '\n'
}

/// The serialized form of a lock token: its reentrance id, one newline, its
/// details.
pub open spec fn spec_serialized(v: LockInfoView) -> Seq<char> {
    v.reentrance_id + seq!['\n'] + v.details
}

/// Whether a process whose reentrance id is `id` may proceed at a location
/// whose recorded lock contents are `existing`: the location is unlocked
/// (empty contents), or the recorded token's reentrance id — everything
/// before the first newline — equals `id`.
pub open spec fn reentrant_for(id: Seq<char>, existing: Seq<char>) -> bool {
    ||| existing.len() == 0
    ||| exists|i: int| #[trigger] newline_at(existing, i) && existing.take(i) == id
}

/// The partially structured information stored in an exclusive-writer lock.
///
/// To allow restart without operator intervention after a crash that could
/// not cleanly unlock, the lock supports reentrance: any process presenting
/// the same opaque reentrance id as the recorded lock may supersede it. This
/// delegates writer-exclusivity to the caller, which must ensure that two
/// live processes never share a reentrance id. Passing a fresh unique id is
/// always safe; it merely requires operator intervention after a crash.
#[derive(Debug, Clone, PartialEq, Eq)]
pub struct LockInfo {
    reentrance_id: String,
    details: String,
}

impl View for LockInfo {
    type V = LockInfoView;

    closed spec fn view(&self) -> LockInfoView {
        LockInfoView { reentrance_id: self.reentrance_id@, details: self.details@ }
    }
}

/// Returns the position of the first newline of `s`, if any.
fn find_newline(s: &str) -> (r: Option<usize>)
    ensures
        match r {
            Some(i) => newline_at(s@, i as int),
            None => !has_newline(s@),
        },
{
    let n = s.unicode_len();
    let mut i: usize = 0;
    while i < n
        invariant
            i <= n,
            n == s@.len(),
            forall|j: int| 0 <= j < i ==> s@[j] != '\n',
        decreases n - i,
    {
        if s.get_char(i) == '\n' {
            return Some(i);
        }
        i = i + 1;
    }
    None
}

impl LockInfo {
    /// Returns a new `LockInfo` from its component parts.
    ///
    /// Errors if `reentrance_id` contains a newline.
    pub fn new(reentrance_id: String, details: String) -> (r: Result<LockInfo, Error>)
        ensures
            match r {
                Ok(li) => !has_newline(reentrance_id@) && li@ == (LockInfoView {
                    reentrance_id: reentrance_id@,
                    details: details@,
                }),
                Err(e) => has_newline(reentrance_id@) && e@ == "reentrance_id cannot contain newlines got:\n"@
                    + reentrance_id@,
            },
    {
        match find_newline(reentrance_id.as_str()) {
            Some(_) => {
                let mut message = String::from_str("reentrance_id cannot contain newlines got:\n");
                message.append(reentrance_id.as_str());
                Err(Error::from_string(message))
            },
            None => Ok(LockInfo { reentrance_id, details }),
        }
    }

    /// Constructs a new `LockInfo` with a unique reentrance id, for callers
    /// that do not intend to reclaim the lock after a crash.
    pub fn new_no_reentrance(details: String) -> (r: LockInfo)
        ensures
            r@.valid(),
            r@.details == details@,
    {
        let nanos = process_nanos();
        let reentrance_id = crate::decimal::u128_to_decimal(nanos);
        proof {
            crate::decimal::lemma_decimal_digits_only(nanos as nat);
        }
        LockInfo { reentrance_id, details }
    }

    /// The serialized form recorded at a locked location.
    pub fn serialize(&self) -> (r: String)
        ensures
            r@ == spec_serialized(self@),
    {
        let mut s = self.reentrance_id.clone();
        s.append("\n");
        s.append(self.details.as_str());
        proof {
            reveal_strlit("\n");
            assert(s@ =~= spec_serialized(self@));
        }
        s
    }

    /// Parses the serialized form of a lock token: everything before the
    /// first newline is the reentrance id, everything after it the details.
    ///
    /// Errors if `s` contains no newline.
    pub fn parse(s: &str) -> (r: Result<LockInfo, Error>)
        ensures
            match r {
                Ok(li) => has_newline(s@) && li@.valid() && spec_serialized(li@) == s@ && (exists|
                    i: int,
                |
                    #[trigger] newline_at(s@, i) && li@.reentrance_id == s@.take(i) && li@.details
                        == s@.skip(i + 1)),
                Err(e) => !has_newline(s@) && e@ == "invalid LOCK format: "@ + s@,
            },
    {
        match find_newline(s) {
            None => {
                let mut message = String::from_str("invalid LOCK format: ");
                message.append(s);
                Err(Error::from_string(message))
            },
            Some(i) => {
                let n = s.unicode_len();
                let reentrance_id = s.substring_char(0, i).to_owned();
                let details = s.substring_char(i + 1, n).to_owned();
                let li = LockInfo { reentrance_id, details };
                proof {
                    assert(spec_serialized(li@) =~= s@);
                }
                Ok(li)
            },
        }
    }

    /// Returns `Ok` if this lock token represents a process that may proceed
    /// at a location whose recorded lock contents are `existing`: the
    /// contents are empty, or they parse to a token with the same reentrance
    /// id. Otherwise returns an error naming the location (in quotes) and the
    /// recorded lock.
    pub fn check_reentrant_for(&self, location: &str, existing: &str) -> (r: Result<(), Error>)
        ensures
            match r {
                Ok(()) => reentrant_for(self@.reentrance_id, existing@),
                Err(e) => !reentrant_for(self@.reentrance_id, existing@) && if has_newline(
                    existing@,
                ) {
                    e@ == "location \""@ + location@ + "\" was already_locked:\n"@ + existing@
                } else {
                    e@ == "invalid LOCK format: "@ + existing@
                },
            },
    {
        if existing.is_empty() {
            return Ok(());
        }
        let parsed = match Self::parse(existing) {
            Ok(p) => p,
            Err(e) => {
                return Err(e);
            },
        };
        proof {
            lemma_reentrant_for_serialized(parsed@, existing@);
        }
        if self.reentrance_id == parsed.reentrance_id {
            Ok(())
        } else {
            let mut message = String::from_str("location \"");
            message.append(location);
            message.append("\" was already_locked:\n");
            message.append(existing);
            Err(Error::from_string(message))
        }
    }
}

/// For a valid lock token recorded at a location, exactly the processes
/// sharing its reentrance id may proceed there.
pub proof fn lemma_reentrant_for_serialized(v: LockInfoView, existing: Seq<char>)
    requires
        v.valid(),
        spec_serialized(v) == existing,
    ensures
        forall|id: Seq<char>| reentrant_for(id, existing) <==> id == v.reentrance_id,
{
    let k = v.reentrance_id.len() as int;
    assert(existing.len() > 0);
    assert(newline_at(existing, k)) by {
        assert(existing[k] == '\n');
        assert forall|j: int| 0 <= j < k implies existing[j] != '\n' by {
            assert(existing[j] == v.reentrance_id[j]);
        }
    }
    assert forall|id: Seq<char>| reentrant_for(id, existing) implies id == v.reentrance_id by {
        let i = choose|i: int| #[trigger] newline_at(existing, i) && existing.take(i) == id;
        assert(i == k) by {
            if i < k {
                assert(existing[i] == v.reentrance_id[i]);
            }
        }
        assert(existing.take(k) =~= v.reentrance_id);
    }
    assert forall|id: Seq<char>| id == v.reentrance_id implies reentrant_for(id, existing) by {
        assert(existing.take(k) =~= v.reentrance_id);
        assert(newline_at(existing, k) && existing.take(k) == id);
    }
}

/// Relies on `std::time::SystemTime::now` for a nanosecond timestamp that is
/// almost surely unique to this process start; nothing is assumed of the
/// returned value.
#[verifier::external_body]
fn process_nanos() -> u128 {
    std::time::SystemTime::now()
        .duration_since(std::time::UNIX_EPOCH)
        .map(|d| d.as_nanos())
        .unwrap_or(0)
}

} // verus!
