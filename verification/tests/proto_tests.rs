use persist::ProtoRepr;
use persist::TryFromProtoError;
use persist::TryIntoIfSome;

#[test]
fn usize_proto_roundtrip() {
    for v in [0usize, 1, 42, usize::MAX] {
        assert_eq!(usize::from_proto(v.into_proto()).unwrap(), v);
    }
    assert_eq!(7usize.into_proto(), 7u64);
}

#[test]
fn u8_proto_roundtrip_and_overflow() {
    for v in [0u8, 1, 9, 255] {
        assert_eq!(u8::from_proto(v.into_proto()).unwrap(), v);
    }
    assert_eq!(9u8.into_proto(), 9u32);
    assert!(matches!(
        u8::from_proto(256u32),
        Err(TryFromProtoError::TryFromIntError(_))
    ));
}

#[test]
fn char_proto_roundtrip_and_invalid_code_points() {
    for v in ['a', '\n', 'ß', '中', '\u{10FFFF}'] {
        assert_eq!(char::from_proto(v.into_proto()).unwrap(), v);
    }
    assert_eq!('A'.into_proto(), 65u32);
    // A surrogate code point and a value beyond the last code point.
    assert!(matches!(
        char::from_proto(0xD800u32),
        Err(TryFromProtoError::CharTryFromError(_))
    ));
    assert!(matches!(
        char::from_proto(0x110000u32),
        Err(TryFromProtoError::CharTryFromError(_))
    ));
}

#[test]
fn option_proto_roundtrip() {
    assert_eq!(Option::<u8>::into_proto(None), None);
    assert_eq!(Some(9u8).into_proto(), Some(9u32));
    assert_eq!(Option::<u8>::from_proto(None).unwrap(), None);
    assert_eq!(Option::<u8>::from_proto(Some(9u32)).unwrap(), Some(9u8));
    assert!(Option::<u8>::from_proto(Some(300u32)).is_err());
}

#[test]
fn missing_field_names_the_field() {
    let err = TryFromProtoError::missing_field("some.field");
    match err {
        TryFromProtoError::MissingField(name) => assert_eq!(name, "some.field"),
        _ => panic!("expected a missing-field error"),
    }
}

#[derive(Debug, PartialEq)]
struct Small(u8);

impl TryFrom<u32> for Small {
    type Error = TryFromProtoError;

    fn try_from(v: u32) -> Result<Small, TryFromProtoError> {
        Ok(Small(u8::from_proto(v)?))
    }
}

#[test]
fn try_into_if_some_converts_or_reports_missing() {
    let present: Option<u32> = Some(9);
    let converted: Small = present.try_into_if_some("field").unwrap();
    assert_eq!(converted, Small(9));

    let overflowing: Option<u32> = Some(300);
    assert!(matches!(
        TryIntoIfSome::<Small>::try_into_if_some(overflowing, "field"),
        Err(TryFromProtoError::TryFromIntError(_))
    ));

    let absent: Option<u32> = None;
    match TryIntoIfSome::<Small>::try_into_if_some(absent, "field") {
        Err(TryFromProtoError::MissingField(name)) => assert_eq!(name, "field"),
        other => panic!("expected a missing-field error, got {:?}", other),
    }
}

#[test]
fn from_impls_wrap_std_conversion_errors() {
    let int_err = u8::try_from(300u32).unwrap_err();
    assert!(matches!(
        TryFromProtoError::from(int_err),
        TryFromProtoError::TryFromIntError(_)
    ));
    let char_err = char::try_from(0xD800u32).unwrap_err();
    assert!(matches!(
        TryFromProtoError::from(char_err),
        TryFromProtoError::CharTryFromError(_)
    ));
}
