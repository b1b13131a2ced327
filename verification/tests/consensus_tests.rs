use persist::Consensus;
use persist::ExternalError;
use persist::MemConsensus;
use persist::SeqNo;
use persist::VersionedData;

const DEADLINE: u64 = 1_000_000;

fn vd(seqno: u64, data: &str) -> VersionedData {
    VersionedData { seqno: SeqNo(seqno), data: data.as_bytes().to_vec() }
}

#[test]
fn consensus_scenario_cas_protocol() {
    // Key "x" starts absent; CAS(None, {5,"a"}) succeeds; CAS(Some(0),
    // {10,"b"}) fails returning {5,"a"}; CAS(Some(5), {10,"b"}) succeeds.
    let mut c = MemConsensus::new();

    assert_eq!(c.head("x", DEADLINE), Ok(None));

    assert_eq!(c.compare_and_set("x", DEADLINE, None, vd(5, "a")), Ok(Ok(())));
    assert_eq!(c.head("x", DEADLINE), Ok(Some(vd(5, "a"))));

    assert_eq!(
        c.compare_and_set("x", DEADLINE, Some(SeqNo(0)), vd(10, "b")),
        Ok(Err(Some(vd(5, "a"))))
    );

    assert_eq!(c.compare_and_set("x", DEADLINE, Some(SeqNo(5)), vd(10, "b")), Ok(Ok(())));
    assert_eq!(c.head("x", DEADLINE), Ok(Some(vd(10, "b"))));
}

#[test]
fn consensus_initial_cas_needs_no_expectation() {
    let mut c = MemConsensus::new();
    // Setting an unset key with a non-None expectation fails, reporting the
    // key as unset.
    assert_eq!(
        c.compare_and_set("key", DEADLINE, Some(SeqNo(0)), vd(5, "abc")),
        Ok(Err(None))
    );
    // The first write must expect None.
    assert_eq!(c.compare_and_set("key", DEADLINE, None, vd(5, "abc")), Ok(Ok(())));
}

#[test]
fn consensus_racing_callers_one_winner() {
    // Two callers race with the same expectation: exactly one succeeds, and
    // the loser's failure carries the winner's data.
    let mut c = MemConsensus::new();
    assert_eq!(c.compare_and_set("x", DEADLINE, None, vd(1, "base")), Ok(Ok(())));

    let expected = Some(SeqNo(1));
    let first = c.compare_and_set("x", DEADLINE, expected, vd(2, "winner"));
    let second = c.compare_and_set("x", DEADLINE, expected, vd(3, "loser"));

    assert_eq!(first, Ok(Ok(())));
    assert_eq!(second, Ok(Err(Some(vd(2, "winner")))));
    assert_eq!(c.head("x", DEADLINE), Ok(Some(vd(2, "winner"))));
}

#[test]
fn consensus_seqno_regression_is_an_error() {
    // CAS with new.seqno <= expected fails with an error distinct from a
    // mismatch, and does not touch the register.
    let mut c = MemConsensus::new();
    assert_eq!(c.compare_and_set("key", DEADLINE, None, vd(5, "abc")), Ok(Ok(())));

    assert_eq!(
        c.compare_and_set("key", DEADLINE, Some(SeqNo(5)), vd(5, "invalid")),
        Err(ExternalError::Determinate {
            message: String::from(
                "new seqno must be strictly greater than expected. Got new: SeqNo(5) expected: SeqNo(5)"
            )
        })
    );
    assert_eq!(
        c.compare_and_set("key", DEADLINE, Some(SeqNo(5)), vd(3, "invalid")),
        Err(ExternalError::Determinate {
            message: String::from(
                "new seqno must be strictly greater than expected. Got new: SeqNo(3) expected: SeqNo(5)"
            )
        })
    );
    assert_eq!(c.head("key", DEADLINE), Ok(Some(vd(5, "abc"))));
}

#[test]
fn consensus_mismatched_expectations_fail() {
    let mut c = MemConsensus::new();
    assert_eq!(c.compare_and_set("key", DEADLINE, None, vd(5, "abc")), Ok(Ok(())));

    // Wrong expectation above and below the current sequence number.
    assert_eq!(
        c.compare_and_set("key", DEADLINE, Some(SeqNo(7)), vd(10, "def")),
        Ok(Err(Some(vd(5, "abc"))))
    );
    assert_eq!(
        c.compare_and_set("key", DEADLINE, Some(SeqNo(3)), vd(10, "def")),
        Ok(Err(Some(vd(5, "abc"))))
    );
}

#[test]
fn consensus_keys_are_independent() {
    let mut c = MemConsensus::new();
    assert_eq!(c.compare_and_set("one", DEADLINE, None, vd(5, "abc")), Ok(Ok(())));

    assert_eq!(c.head("two", DEADLINE), Ok(None));
    assert_eq!(c.compare_and_set("two", DEADLINE, None, vd(1, "einszweidrei")), Ok(Ok(())));

    assert_eq!(c.head("one", DEADLINE), Ok(Some(vd(5, "abc"))));
    assert_eq!(c.head("two", DEADLINE), Ok(Some(vd(1, "einszweidrei"))));
}

#[test]
fn consensus_large_data() {
    let mut c = MemConsensus::new();
    assert_eq!(c.compare_and_set("key", DEADLINE, None, vd(1, "small")), Ok(Ok(())));

    let large = VersionedData {
        seqno: SeqNo(2),
        data: std::iter::repeat(b'a').take(10240).collect(),
    };
    assert_eq!(
        c.compare_and_set("key", DEADLINE, Some(SeqNo(1)), large.clone()),
        Ok(Ok(()))
    );
    assert_eq!(c.head("key", DEADLINE), Ok(Some(large)));
}
