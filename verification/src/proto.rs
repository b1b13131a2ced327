//! Conversions between values and their protobuf wire representations.
//!
//! Wire representation types are often wider than the values they carry, so
//! decoding can fail where encoding cannot.

use vstd::prelude::*;

verus! {

/// The error raised when a protobuf representation cannot be converted back
/// to the value it stands for.
#[derive(Debug)]
pub enum TryFromProtoError {
    /// A wrapped integer conversion error: the representation does not fit
    /// the target integer type.
    TryFromIntError(core::num::TryFromIntError),
    /// A wrapped character conversion error: the representation is not a
    /// valid character.
    CharTryFromError(core::char::CharTryFromError),
    /// A field of the representation that should be set is not. In practice
    /// this should never occur.
    MissingField(String),
}

/// Relies on `core::char::CharTryFromError` only as an opaque payload: the
/// error type of `char::try_from`.
#[verifier::external_type_specification]
#[verifier::external_body]
pub struct ExCharTryFromError(core::char::CharTryFromError);

/// Every character's code point is a valid Unicode scalar value: at most
/// `0x10FFFF` and not a surrogate.
proof fn lemma_char_range(c: char)
    ensures
        c as u32 <= 0x10FFFF,
        !(0xD800 <= c as u32 && c as u32 <= 0xDFFF),
{
}

/// Relies on `char::try_from(u32)`: per its documentation it succeeds for
/// exactly the valid character values — at most `0x10FFFF` and not a
/// surrogate (`0xD800..=0xDFFF`) — and the resulting `char` has the given
/// code point.
#[verifier::external_body]
fn char_try_from_u32(v: u32) -> (r: Result<char, core::char::CharTryFromError>)
    ensures
        r is Ok <==> (v < 0xD800 || (0xE000 <= v && v <= 0x10FFFF)),
        r matches Ok(c) ==> c as u32 == v,
{
    char::try_from(v)
}

impl TryFromProtoError {
    /// Constructs a new [`TryFromProtoError::MissingField`] instance naming
    /// the missing field.
    pub fn missing_field<T: core::fmt::Display>(s: T) -> (r: TryFromProtoError)
        ensures
            r is MissingField,
    {
        TryFromProtoError::MissingField(s.to_string())
    }
}

impl From<core::num::TryFromIntError> for TryFromProtoError {
    fn from(error: core::num::TryFromIntError) -> (r: TryFromProtoError)
        ensures
            r is TryFromIntError,
    {
        TryFromProtoError::TryFromIntError(error)
    }
}

impl vstd::std_specs::convert::FromSpecImpl<core::num::TryFromIntError> for TryFromProtoError {
    open spec fn obeys_from_spec() -> bool {
        true
    }

    open spec fn from_spec(error: core::num::TryFromIntError) -> TryFromProtoError {
        TryFromProtoError::TryFromIntError(error)
    }
}

impl From<core::char::CharTryFromError> for TryFromProtoError {
    fn from(error: core::char::CharTryFromError) -> (r: TryFromProtoError)
        ensures
            r is CharTryFromError,
    {
        TryFromProtoError::CharTryFromError(error)
    }
}

impl vstd::std_specs::convert::FromSpecImpl<core::char::CharTryFromError> for TryFromProtoError {
    open spec fn obeys_from_spec() -> bool {
        true
    }

    open spec fn from_spec(error: core::char::CharTryFromError) -> TryFromProtoError {
        TryFromProtoError::CharTryFromError(error)
    }
}

/// A trait for representing `Self` as a value of the wire type `Self::Repr`
/// when serializing it into a protobuf message.
///
/// Encoding with [`ProtoRepr::into_proto`] is infallible; since the wire
/// type can be wider than the original, decoding with
/// [`ProtoRepr::from_proto`] can fail, and does so exactly when the
/// representation stands for no value.
pub trait ProtoRepr: Sized {
    /// The protobuf wire type representing `Self`.
    type Repr;

    /// The wire representation of this value.
    spec fn spec_into_proto(self) -> Self::Repr;

    /// Converts a `Self` into its wire representation.
    fn into_proto(self) -> (r: Self::Repr)
        ensures
            r == self.spec_into_proto(),
    ;

    /// Converts a wire representation back into a `Self`: a value whose
    /// representation is `repr`, or an error when no value has this
    /// representation.
    fn from_proto(repr: Self::Repr) -> (r: Result<Self, TryFromProtoError>)
        ensures
            match r {
                Ok(x) => x.spec_into_proto() == repr,
                Err(_) => !(exists|x: Self| (#[trigger] x.spec_into_proto()) == repr),
            },
    ;
}

impl ProtoRepr for usize {
    type Repr = u64;

    open spec fn spec_into_proto(self) -> u64 {
        self as u64
    }

    fn into_proto(self) -> (r: u64) {
        self as u64
    }

    fn from_proto(repr: u64) -> (r: Result<Self, TryFromProtoError>) {
        match usize::try_from(repr) {
            Ok(v) => Ok(v),
            Err(e) => {
                proof {
                    if exists|x: usize| (#[trigger] x.spec_into_proto()) == repr {
                        let x = choose|x: usize| (#[trigger] x.spec_into_proto()) == repr;
                        assert(x as u64 == repr);
                    }
                }
                Err(TryFromProtoError::TryFromIntError(e))
            },
        }
    }
}

impl ProtoRepr for char {
    type Repr = u32;

    open spec fn spec_into_proto(self) -> u32 {
        self as u32
    }

    fn into_proto(self) -> (r: u32) {
        self as u32
    }

    fn from_proto(repr: u32) -> (r: Result<Self, TryFromProtoError>) {
        match char_try_from_u32(repr) {
            Ok(v) => Ok(v),
            Err(e) => {
                proof {
                    if exists|x: char| (#[trigger] x.spec_into_proto()) == repr {
                        let x = choose|x: char| (#[trigger] x.spec_into_proto()) == repr;
                        lemma_char_range(x);
                        assert(x as u32 == repr);
                        assert(false);
                    }
                }
                Err(TryFromProtoError::CharTryFromError(e))
            },
        }
    }
}

impl ProtoRepr for u8 {
    type Repr = u32;

    open spec fn spec_into_proto(self) -> u32 {
        self as u32
    }

    fn into_proto(self) -> (r: u32) {
        self as u32
    }

    fn from_proto(repr: u32) -> (r: Result<Self, TryFromProtoError>) {
        match u8::try_from(repr) {
            Ok(v) => Ok(v),
            Err(e) => {
                proof {
                    if exists|x: u8| (#[trigger] x.spec_into_proto()) == repr {
                        let x = choose|x: u8| (#[trigger] x.spec_into_proto()) == repr;
                        assert(x as u32 == repr);
                    }
                }
                Err(TryFromProtoError::TryFromIntError(e))
            },
        }
    }
}

impl<T: ProtoRepr> ProtoRepr for Option<T> {
    type Repr = Option<T::Repr>;

    open spec fn spec_into_proto(self) -> Option<T::Repr> {
        match self {
            Some(x) => Some(x.spec_into_proto()),
            None => None,
        }
    }

    fn into_proto(self) -> (r: Option<T::Repr>) {
        match self {
            Some(x) => Some(x.into_proto()),
            None => None,
        }
    }

    fn from_proto(repr: Option<T::Repr>) -> (r: Result<Self, TryFromProtoError>) {
        match repr {
            None => Ok(None),
            Some(inner) => {
                let ghost inner0 = inner;
                match T::from_proto(inner) {
                    Ok(v) => Ok(Some(v)),
                    Err(e) => {
                        proof {
                            assert forall|x: Option<T>| (#[trigger] x.spec_into_proto()) != Some(
                                inner0,
                            ) by {
                                match x {
                                    Option::None => {},
                                    Option::Some(y) => {
                                        assert(x.spec_into_proto() == Some(y.spec_into_proto()));
                                    },
                                }
                            }
                        }
                        Err(e)
                    },
                }
            },
        }
    }
}

/// Convenience for converting a `Option<U>` wire field that must be set: the
/// value converted to `T` if it is `Some`, or
/// [`TryFromProtoError::MissingField`] naming the field if it is `None`.
pub trait TryIntoIfSome<T> {
    /// Converts the contained value, or reports `field` as missing.
    fn try_into_if_some<S: core::fmt::Display>(self, field: S) -> (r: Result<T, TryFromProtoError>)
        ensures
            self.is_none_spec() ==> r is Err,
    ;

    /// Whether this wire field is unset.
    spec fn is_none_spec(&self) -> bool;
}

impl<T, U> TryIntoIfSome<T> for Option<U> where T: TryFrom<U, Error = TryFromProtoError> {
    open spec fn is_none_spec(&self) -> bool {
        self is None
    }

    fn try_into_if_some<S: core::fmt::Display>(self, field: S) -> (r: Result<T, TryFromProtoError>) {
        match self {
            None => Err(TryFromProtoError::missing_field(field)),
            Some(value) => T::try_from(value),
        }
    }
}

} // verus!
