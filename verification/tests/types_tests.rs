use persist::decimal::u128_to_decimal;
use persist::decimal::u64_to_decimal;
use persist::types::AwsExternalId;
use persist::types::ColumnSpec;
use persist::types::MzOffset;
use persist::Error;
use persist::ExternalError;
use persist::SeqNo;

#[test]
fn seqno_next_increments() {
    assert_eq!(SeqNo(0).next(), SeqNo(1));
    assert_eq!(SeqNo(41).next(), SeqNo(42));
    assert!(SeqNo(1) < SeqNo(2));
    assert_eq!(SeqNo::default(), SeqNo(0));
}

#[test]
fn column_spec_arity() {
    assert_eq!(ColumnSpec::Count(0).arity(), 0);
    assert_eq!(ColumnSpec::Count(5).arity(), 5);
    let names = vec!["a".to_string(), "b".to_string(), "c".to_string()];
    assert_eq!(ColumnSpec::Header { names: names.clone() }.arity(), 3);

    assert_eq!(ColumnSpec::Count(5).into_header_names(), None);
    assert_eq!(
        ColumnSpec::Header { names: names.clone() }.into_header_names(),
        Some(names)
    );
}

#[test]
fn aws_external_id_access() {
    assert_eq!(AwsExternalId::default(), AwsExternalId::NotProvided);
    assert_eq!(AwsExternalId::NotProvided.get(), None);
    assert_eq!(
        AwsExternalId::ISwearThisCameFromACliArgOrEnvVariable("id".to_string()).get(),
        Some("id")
    );
}

#[test]
fn offsets_hold_their_value() {
    let mz = MzOffset { offset: 7 };
    assert_eq!(mz.offset, 7);
    assert_eq!(MzOffset::default(), MzOffset { offset: 0 });
    assert!(MzOffset { offset: 1 } < MzOffset { offset: 2 });
}

#[test]
fn decimal_rendering_is_exact() {
    assert_eq!(u64_to_decimal(0), "0");
    assert_eq!(u64_to_decimal(9), "9");
    assert_eq!(u64_to_decimal(10), "10");
    assert_eq!(u64_to_decimal(12345), "12345");
    assert_eq!(u64_to_decimal(u64::MAX), "18446744073709551615");
    assert_eq!(u128_to_decimal(u128::MAX), "340282366920938463463374607431768211455");
}

#[test]
fn error_messages_carry_through() {
    let e = Error::new("something broke");
    assert_eq!(e.message(), "something broke");
    assert_eq!(Error::from(String::from("x")), Error::new("x"));

    let ext = ExternalError::from(e);
    assert_eq!(ext.message(), "something broke");
    assert!(matches!(ext, ExternalError::Determinate { .. }));

    let maybe = ExternalError::Indeterminate { message: "timed out".to_string() };
    assert_eq!(maybe.message(), "timed out");
    assert_ne!(ext, maybe);
}
