//! Decoding: reading a payload against a schema.
//!
//! A payload that has the declared shape is decoded to its typed form: an
//! object holds exactly the declared fields, in declared order, an unset
//! optional field is null, and a union value holds the one variant that was
//! selected. Members that the schema does not declare are left out. A payload
//! that does not have the shape is refused with the place that is wrong.

use crate::error::{view_strings, DispatchError, DispatchErrorView, Reason};
use crate::payload::{find, lookup, view_members, Member, MemberView, Payload, PayloadView};
use crate::schema::{
    view_fields, view_variants, Field, FieldView, ScalarKind, SchemaDescriptor, SchemaView,
    Variant, VariantView,
};
use vstd::prelude::*;

verus! {

/// Whether `payload` is a scalar of kind `kind`. An integer is a number too.
pub open spec fn kind_accepts(kind: ScalarKind, payload: PayloadView) -> bool {
    match kind {
        ScalarKind::Boolean => payload is Bool,
        ScalarKind::Integer => payload is Int,
        ScalarKind::Number => payload is Int || payload is Number,
        ScalarKind::Text => payload is Text,
    }
}

/// What decoding `payload` against `schema` gives: the typed value, or the
/// first thing that is wrong, in the order in which the schema declares its
/// fields. The path of an error leads from `payload` to the place it concerns.
pub open spec fn decode_spec(schema: SchemaView, payload: PayloadView) -> Result<
    PayloadView,
    DispatchErrorView,
>
    decreases schema, 0nat,
{
    match schema {
        SchemaView::Scalar(kind) => {
            if kind_accepts(kind, payload) {
                Ok(payload)
            } else {
                Err(
                    DispatchErrorView::InvalidParameters {
                        path: Seq::empty(),
                        reason: Reason::NotA(kind),
                    },
                )
            }
        },
        SchemaView::Object(fields) => {
            match payload {
                PayloadView::Object(members) => {
                    match decode_fields(fields, members, fields.len()) {
                        Ok(decoded) => Ok(PayloadView::Object(decoded)),
                        Err(e) => Err(e),
                    }
                },
                _ => Err(
                    DispatchErrorView::InvalidParameters {
                        path: Seq::empty(),
                        reason: Reason::NotAnObject,
                    },
                ),
            }
        },
        SchemaView::TaggedUnion(variants) => {
            match payload {
                PayloadView::Object(members) => select_variant(variants, members, 0),
                _ => Err(DispatchErrorView::AmbiguousOrInvalidVariant { path: Seq::empty() }),
            }
        },
    }
}

/// Decoding the first `n` declared fields from `members`: the decoded members
/// in declared order, or the error of the first field that fails.
pub open spec fn decode_fields(fields: Seq<FieldView>, members: Seq<MemberView>, n: nat) -> Result<
    Seq<MemberView>,
    DispatchErrorView,
>
    decreases fields, n,
{
    if n == 0 || n > fields.len() {
        Ok(Seq::empty())
    } else {
        match decode_fields(fields, members, (n - 1) as nat) {
            Err(e) => Err(e),
            Ok(done) => {
                match decode_field(fields[n - 1], members) {
                    Err(e) => Err(e),
                    Ok(member) => Ok(done.push(member)),
                }
            },
        }
    }
}

/// Decoding one declared field from `members`. A required field has to be
/// there; an optional one that is absent or null is unset, which the typed
/// value shows as null. Errors from inside the field get its name in front.
pub open spec fn decode_field(field: FieldView, members: Seq<MemberView>) -> Result<
    MemberView,
    DispatchErrorView,
>
    decreases field, 0nat,
{
    match lookup(members, field.name) {
        None => {
            if field.required {
                Err(
                    DispatchErrorView::InvalidParameters {
                        path: seq![field.name],
                        reason: Reason::MissingField,
                    },
                )
            } else {
                Ok(MemberView { name: field.name, value: PayloadView::Null })
            }
        },
        Some(found) => {
            if !field.required && found is Null {
                Ok(MemberView { name: field.name, value: PayloadView::Null })
            } else {
                match decode_spec(field.schema, found) {
                    Ok(value) => Ok(MemberView { name: field.name, value }),
                    Err(e) => Err(e.under(field.name)),
                }
            }
        },
    }
}

/// The first variant at or after `from`, in declared order, that `members`
/// match; where none does, the value is refused.
pub open spec fn select_variant(variants: Seq<VariantView>, members: Seq<MemberView>, from: nat)
    -> Result<PayloadView, DispatchErrorView>
    decreases variants, variants.len() - from,
{
    if from >= variants.len() {
        Err(DispatchErrorView::AmbiguousOrInvalidVariant { path: Seq::empty() })
    } else {
        match variant_match(variants[from as int], members) {
            Some(value) => Ok(value),
            None => select_variant(variants, members, from + 1),
        }
    }
}

/// Whether `members` match `variant`: they hold a member of the variant's
/// name whose value decodes against the variant's shape. The result is the
/// decoded union value, which holds that member alone.
pub open spec fn variant_match(variant: VariantView, members: Seq<MemberView>) -> Option<
    PayloadView,
>
    decreases variant, 0nat,
{
    match lookup(members, variant.name) {
        None => None,
        Some(found) => {
            match decode_spec(variant.schema, found) {
                Ok(value) => Some(
                    PayloadView::Object(seq![MemberView { name: variant.name, value }]),
                ),
                Err(_) => None,
            }
        },
    }
}

/// Whether `value` is a typed value of `schema`: what decoding hands to a
/// handler. An object holds exactly the declared fields, in declared order,
/// with null for an optional field that is unset; a union value holds one
/// member, named after one of the variants.
pub open spec fn conforms(schema: SchemaView, value: PayloadView) -> bool
    decreases schema,
{
    match schema {
        SchemaView::Scalar(kind) => kind_accepts(kind, value),
        SchemaView::Object(fields) => {
            &&& value is Object
            &&& value->Object_0.len() == fields.len()
            &&& forall|i: int|
                0 <= i < fields.len() ==> field_conforms(#[trigger] fields[i], value->Object_0[i])
        },
        SchemaView::TaggedUnion(variants) => {
            &&& value is Object
            &&& value->Object_0.len() == 1
            &&& exists|j: int|
                0 <= j < variants.len() && variant_conforms(
                    #[trigger] variants[j],
                    value->Object_0[0],
                )
        },
    }
}

/// Whether `member` is the typed form of `field`.
pub open spec fn field_conforms(field: FieldView, member: MemberView) -> bool
    decreases field,
{
    &&& member.name == field.name
    &&& conforms(field.schema, member.value) || (!field.required && member.value is Null)
}

/// Whether `member` is a typed value of `variant`.
pub open spec fn variant_conforms(variant: VariantView, member: MemberView) -> bool
    decreases variant,
{
    &&& member.name == variant.name
    &&& conforms(variant.schema, member.value)
}

/// The mathematical value of what decoding returns.
pub open spec fn view_decoded(r: Result<Payload, DispatchError>) -> Result<
    PayloadView,
    DispatchErrorView,
> {
    match r {
        Ok(value) => Ok(value@),
        Err(e) => Err(e@),
    }
}

/// Once a field has failed, the fields after it are not looked at.
pub proof fn lemma_first_error_stands(
    fields: Seq<FieldView>,
    members: Seq<MemberView>,
    k: nat,
    n: nat,
)
    requires
        k <= n <= fields.len(),
        decode_fields(fields, members, k) is Err,
    ensures
        decode_fields(fields, members, n) == decode_fields(fields, members, k),
    decreases n,
{
    if k < n {
        lemma_first_error_stands(fields, members, k, (n - 1) as nat);
    }
}

/// A copy of `payload` where it is a scalar of kind `kind`.
fn copy_scalar(kind: ScalarKind, payload: &Payload) -> (copy: Option<Payload>)
    ensures
        match copy {
            Some(value) => kind_accepts(kind, payload@) && value@ == payload@,
            None => !kind_accepts(kind, payload@),
        },
{
    match (kind, payload) {
        (ScalarKind::Boolean, Payload::Bool(b)) => Some(Payload::Bool(*b)),
        (ScalarKind::Integer, Payload::Int(n)) => Some(Payload::Int(*n)),
        (ScalarKind::Number, Payload::Int(n)) => Some(Payload::Int(*n)),
        (ScalarKind::Number, Payload::Number(text)) => Some(Payload::Number(text.clone())),
        (ScalarKind::Text, Payload::Text(text)) => Some(Payload::Text(text.clone())),
        _ => None,
    }
}

/// Decodes `payload` against `schema`.
pub fn decode(schema: &SchemaDescriptor, payload: &Payload) -> (decoded: Result<
    Payload,
    DispatchError,
>)
    ensures
        view_decoded(decoded) == decode_spec(schema@, payload@),
    decreases schema, 0nat,
{
    match schema {
        SchemaDescriptor::Scalar(kind) => {
            match copy_scalar(*kind, payload) {
                Some(value) => Ok(value),
                None => {
                    let path: Vec<String> = Vec::new();
                    assert(view_strings(path@) =~= Seq::<Seq<char>>::empty());
                    Err(DispatchError::InvalidParameters { path, reason: Reason::NotA(*kind) })
                },
            }
        },
        SchemaDescriptor::Object(fields) => {
            match payload {
                Payload::Object(members) => {
                    match decode_object(fields, members) {
                        Ok(decoded) => Ok(Payload::Object(decoded)),
                        Err(e) => Err(e),
                    }
                },
                _ => {
                    let path: Vec<String> = Vec::new();
                    assert(view_strings(path@) =~= Seq::<Seq<char>>::empty());
                    Err(DispatchError::InvalidParameters { path, reason: Reason::NotAnObject })
                },
            }
        },
        SchemaDescriptor::TaggedUnion(variants) => {
            match payload {
                Payload::Object(members) => decode_union(variants, members),
                _ => {
                    let path: Vec<String> = Vec::new();
                    assert(view_strings(path@) =~= Seq::<Seq<char>>::empty());
                    Err(DispatchError::AmbiguousOrInvalidVariant { path })
                },
            }
        },
    }
}

/// Decodes the declared fields of an object, in declared order.
fn decode_object(fields: &Vec<Field>, members: &Vec<Member>) -> (decoded: Result<
    Vec<Member>,
    DispatchError,
>)
    ensures
        match decoded {
            Ok(out) => decode_fields(
                view_fields(fields@),
                view_members(members@),
                fields@.len(),
            ) == Ok::<Seq<MemberView>, DispatchErrorView>(view_members(out@)),
            Err(e) => decode_fields(view_fields(fields@), view_members(members@), fields@.len())
                == Err::<Seq<MemberView>, DispatchErrorView>(e@),
        },
    decreases fields, fields@.len(),
{
    let mut out: Vec<Member> = Vec::new();
    let mut i: usize = 0;
    assert(view_members(out@) =~= Seq::<MemberView>::empty());
    while i < fields.len()
        invariant
            i <= fields.len(),
            decode_fields(view_fields(fields@), view_members(members@), i as nat) == Ok::<
                Seq<MemberView>,
                DispatchErrorView,
            >(view_members(out@)),
        decreases fields.len() - i,
    {
        let ghost before = view_members(out@);
        match decode_member(&fields[i], members) {
            Err(e) => {
                proof {
                    lemma_first_error_stands(
                        view_fields(fields@),
                        view_members(members@),
                        (i + 1) as nat,
                        fields@.len(),
                    );
                }
                return Err(e);
            },
            Ok(member) => {
                out.push(member);
                assert(view_members(out@) =~= before.push(member@));
            },
        }
        i += 1;
    }
    Ok(out)
}

/// Decodes one declared field.
fn decode_member(field: &Field, members: &Vec<Member>) -> (decoded: Result<Member, DispatchError>)
    ensures
        match decoded {
            Ok(member) => decode_field(field@, view_members(members@)) == Ok::<
                MemberView,
                DispatchErrorView,
            >(member@),
            Err(e) => decode_field(field@, view_members(members@)) == Err::<
                MemberView,
                DispatchErrorView,
            >(e@),
        },
    decreases field, 0nat,
{
    match find(members, field.name.as_str()) {
        None => {
            if field.required {
                let path: Vec<String> = vec![field.name.clone()];
                assert(view_strings(path@) =~= seq![field.name@]);
                Err(DispatchError::InvalidParameters { path, reason: Reason::MissingField })
            } else {
                Ok(Member { name: field.name.clone(), value: Payload::Null })
            }
        },
        Some(k) => {
            let value = &members[k].value;
            let unset = match value {
                Payload::Null => !field.required,
                _ => false,
            };
            if unset {
                Ok(Member { name: field.name.clone(), value: Payload::Null })
            } else {
                match decode(&field.schema, value) {
                    Ok(value) => Ok(Member { name: field.name.clone(), value }),
                    Err(e) => Err(e.under(field.name.as_str())),
                }
            }
        },
    }
}

/// Selects the first declared variant that `members` match.
fn decode_union(variants: &Vec<Variant>, members: &Vec<Member>) -> (decoded: Result<
    Payload,
    DispatchError,
>)
    ensures
        view_decoded(decoded) == select_variant(
            view_variants(variants@),
            view_members(members@),
            0,
        ),
    decreases variants, variants@.len(),
{
    let mut i: usize = 0;
    while i < variants.len()
        invariant
            i <= variants.len(),
            select_variant(view_variants(variants@), view_members(members@), 0) == select_variant(
                view_variants(variants@),
                view_members(members@),
                i as nat,
            ),
        decreases variants.len() - i,
    {
        assert(view_variants(variants@)[i as int] == variants[i as int]@);
        match match_variant(&variants[i], members) {
            Some(value) => {
                return Ok(value);
            },
            None => {},
        }
        i += 1;
    }
    let path: Vec<String> = Vec::new();
    assert(view_strings(path@) =~= Seq::<Seq<char>>::empty());
    Err(DispatchError::AmbiguousOrInvalidVariant { path })
}

/// Tries one declared variant.
fn match_variant(variant: &Variant, members: &Vec<Member>) -> (matched: Option<Payload>)
    ensures
        match matched {
            Some(value) => variant_match(variant@, view_members(members@)) == Some(value@),
            None => variant_match(variant@, view_members(members@)) is None,
        },
    decreases variant, 0nat,
{
    match find(members, variant.name.as_str()) {
        None => None,
        Some(k) => {
            match decode(&variant.schema, &members[k].value) {
                Ok(value) => {
                    let only: Vec<Member> = vec![Member { name: variant.name.clone(), value }];
                    assert(view_members(only@) =~= seq![
                        MemberView { name: variant.name@, value: value@ },
                    ]);
                    Some(Payload::Object(only))
                },
                Err(_) => None,
            }
        },
    }
}

} // verus!
