//! Typed values: Rust types with a declared shape.

use crate::decode::{conforms, decode, decode_spec};
use crate::encode::{encode, encode_spec};
use crate::error::{DispatchError, DispatchErrorView};
use crate::laws::{lemma_decoded_conforms, lemma_round_trip};
use crate::payload::{Payload, PayloadView};
use crate::schema::{well_formed, SchemaDescriptor, SchemaView};
use vstd::prelude::*;

verus! {

/// A type whose values can be described, written as payloads and read back.
pub trait Shaped: View + Sized {
    /// The shape of the type's values.
    spec fn schema() -> SchemaView;

    /// The typed payload that stands for `value`.
    spec fn typed(value: Self::V) -> PayloadView;

    /// The value that the typed payload `value` stands for, if it stands for
    /// one.
    spec fn untyped(value: PayloadView) -> Option<Self::V>;

    /// The schema is well formed, every value has a typed payload of that
    /// schema, and reading that payload gives the value back.
    proof fn lemma_typed(value: Self::V)
        ensures
            well_formed(Self::schema()),
            conforms(Self::schema(), Self::typed(value)),
            Self::untyped(Self::typed(value)) == Some(value),
    ;

    /// What is read from a payload is the value that it stands for, and only
    /// a payload that is no typed payload of the schema is not read.
    proof fn lemma_untyped(value: PayloadView)
        ensures
            match Self::untyped(value) {
                Some(read) => Self::typed(read) == value,
                None => !conforms(Self::schema(), value),
            },
    ;

    /// The shape of the type's values.
    fn describe() -> (schema: SchemaDescriptor)
        ensures
            schema@ == Self::schema(),
    ;

    /// The typed payload that stands for this value.
    fn to_typed(&self) -> (value: Payload)
        ensures
            value@ == Self::typed(self@),
    ;

    /// The value that a typed payload stands for.
    fn from_typed(value: &Payload) -> (read: Option<Self>)
        ensures
            match read {
                Some(x) => Self::untyped(value@) == Some(x@),
                None => Self::untyped(value@) is None,
            },
    ;
}

/// Decodes `payload` as a `T`: against the shape of `T`, and then into a `T`.
pub fn decode_as<T: Shaped>(payload: &Payload) -> (decoded: Result<T, DispatchError>)
    ensures
        match decode_spec(T::schema(), payload@) {
            Ok(value) => decoded matches Ok(x) && T::typed(x@) == value,
            Err(e) => decoded matches Err(refused) && refused@ == e,
        },
{
    let schema = T::describe();
    match decode(&schema, payload) {
        Err(e) => Err(e),
        Ok(value) => {
            proof {
                lemma_decoded_conforms(T::schema(), payload@);
                T::lemma_untyped(value@);
            }
            match T::from_typed(&value) {
                Some(x) => Ok(x),
                None => {
                    assert(false);
                    vstd::pervasive::unreached()
                },
            }
        },
    }
}

/// Encodes `value` along the shape of its type.
pub fn encode_from<T: Shaped>(value: &T) -> (encoded: Payload)
    ensures
        encoded@ == encode_spec(T::schema(), T::typed(value@)),
{
    let schema = T::describe();
    let typed = value.to_typed();
    encode(&schema, &typed)
}

/// Round trip: the encoding of a value decodes, against the same shape, to
/// the typed payload of that value, from which the value itself is read.
pub proof fn lemma_shaped_round_trip<T: Shaped>(value: T::V)
    ensures
        decode_spec(T::schema(), encode_spec(T::schema(), T::typed(value))) == Ok::<
            PayloadView,
            DispatchErrorView,
        >(T::typed(value)),
        T::untyped(T::typed(value)) == Some(value),
{
    T::lemma_typed(value);
    lemma_round_trip(T::schema(), T::typed(value));
}

} // verus!
