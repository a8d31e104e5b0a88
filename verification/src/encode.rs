//! Encoding: writing a typed value out along a schema.
//!
//! The schema is the guide. Of an object the declared fields are written, in
//! declared order, and an optional field that is unset is left out. Of a union
//! value the one member is written along the variant that it names. What does
//! not have the declared shape is written as it is.

use crate::payload::{find, lookup, view_members, Member, MemberView, Payload, PayloadView};
use crate::schema::{
    view_fields, view_variants, Field, FieldView, SchemaDescriptor, SchemaView, Variant,
    VariantView,
};
use crate::text::same_text;
use vstd::prelude::*;

verus! {

/// What encoding `value` along `schema` gives.
pub open spec fn encode_spec(schema: SchemaView, value: PayloadView) -> PayloadView
    decreases schema, 0nat,
{
    match schema {
        SchemaView::Scalar(_) => value,
        SchemaView::Object(fields) => {
            match value {
                PayloadView::Object(members) => PayloadView::Object(
                    encode_fields(fields, members, fields.len()),
                ),
                _ => value,
            }
        },
        SchemaView::TaggedUnion(variants) => {
            match value {
                PayloadView::Object(members) => {
                    if members.len() == 1 {
                        PayloadView::Object(seq![encode_variant(variants, members[0], 0)])
                    } else {
                        value
                    }
                },
                _ => value,
            }
        },
    }
}

/// The members written for the first `n` declared fields.
pub open spec fn encode_fields(fields: Seq<FieldView>, members: Seq<MemberView>, n: nat) -> Seq<
    MemberView,
>
    decreases fields, n,
{
    if n == 0 || n > fields.len() {
        Seq::empty()
    } else {
        let done = encode_fields(fields, members, (n - 1) as nat);
        match encode_field(fields[n - 1], members) {
            Some(member) => done.push(member),
            None => done,
        }
    }
}

/// The member written for one declared field, if one is written: none for a
/// field that `members` do not hold, and none for an optional field that is
/// null.
pub open spec fn encode_field(field: FieldView, members: Seq<MemberView>) -> Option<MemberView>
    decreases field, 0nat,
{
    match lookup(members, field.name) {
        None => None,
        Some(found) => {
            if !field.required && found is Null {
                None
            } else {
                Some(MemberView { name: field.name, value: encode_spec(field.schema, found) })
            }
        },
    }
}

/// The one member of a union value, written along the first variant at or
/// after `from` that has its name; unchanged where no variant has it.
pub open spec fn encode_variant(variants: Seq<VariantView>, member: MemberView, from: nat)
    -> MemberView
    decreases variants, variants.len() - from,
{
    if from >= variants.len() {
        member
    } else if variants[from as int].name == member.name {
        MemberView {
            name: member.name,
            value: encode_spec(variants[from as int].schema, member.value),
        }
    } else {
        encode_variant(variants, member, from + 1)
    }
}

/// Encodes `value` along `schema`.
pub fn encode(schema: &SchemaDescriptor, value: &Payload) -> (encoded: Payload)
    ensures
        encoded@ == encode_spec(schema@, value@),
    decreases schema, 0nat,
{
    match schema {
        SchemaDescriptor::Scalar(_) => value.duplicate(),
        SchemaDescriptor::Object(fields) => {
            match value {
                Payload::Object(members) => Payload::Object(encode_object(fields, members)),
                _ => value.duplicate(),
            }
        },
        SchemaDescriptor::TaggedUnion(variants) => {
            match value {
                Payload::Object(members) => {
                    if members.len() == 1 {
                        let only: Vec<Member> = vec![encode_tagged(variants, &members[0])];
                        assert(view_members(only@) =~= seq![only[0]@]);
                        assert(view_members(members@)[0] == members[0]@);
                        Payload::Object(only)
                    } else {
                        value.duplicate()
                    }
                },
                _ => value.duplicate(),
            }
        },
    }
}

/// Writes the declared fields of an object, in declared order.
fn encode_object(fields: &Vec<Field>, members: &Vec<Member>) -> (encoded: Vec<Member>)
    ensures
        view_members(encoded@) == encode_fields(
            view_fields(fields@),
            view_members(members@),
            fields@.len(),
        ),
    decreases fields, fields@.len(),
{
    let mut out: Vec<Member> = Vec::new();
    let mut i: usize = 0;
    assert(view_members(out@) =~= Seq::<MemberView>::empty());
    while i < fields.len()
        invariant
            i <= fields.len(),
            view_members(out@) == encode_fields(
                view_fields(fields@),
                view_members(members@),
                i as nat,
            ),
        decreases fields.len() - i,
    {
        let ghost before = view_members(out@);
        assert(view_fields(fields@)[i as int] == fields[i as int]@);
        match encode_member(&fields[i], members) {
            Some(member) => {
                out.push(member);
                assert(view_members(out@) =~= before.push(member@));
            },
            None => {},
        }
        i += 1;
    }
    out
}

/// Writes one declared field, if it is to be written.
fn encode_member(field: &Field, members: &Vec<Member>) -> (encoded: Option<Member>)
    ensures
        match encoded {
            Some(member) => encode_field(field@, view_members(members@)) == Some(member@),
            None => encode_field(field@, view_members(members@)) is None,
        },
    decreases field, 0nat,
{
    match find(members, field.name.as_str()) {
        None => None,
        Some(k) => {
            let value = &members[k].value;
            let unset = match value {
                Payload::Null => !field.required,
                _ => false,
            };
            if unset {
                None
            } else {
                Some(Member { name: field.name.clone(), value: encode(&field.schema, value) })
            }
        },
    }
}

/// Writes the one member of a union value along the variant that it names.
fn encode_tagged(variants: &Vec<Variant>, member: &Member) -> (encoded: Member)
    ensures
        encoded@ == encode_variant(view_variants(variants@), member@, 0),
    decreases variants, variants@.len(),
{
    let mut i: usize = 0;
    while i < variants.len()
        invariant
            i <= variants.len(),
            encode_variant(view_variants(variants@), member@, 0) == encode_variant(
                view_variants(variants@),
                member@,
                i as nat,
            ),
        decreases variants.len() - i,
    {
        assert(view_variants(variants@)[i as int] == variants[i as int]@);
        let variant = &variants[i];
        if same_text(variant.name.as_str(), member.name.as_str()) {
            return Member {
                name: member.name.clone(),
                value: encode(&variant.schema, &member.value),
            };
        }
        i += 1;
    }
    Member { name: member.name.clone(), value: member.value.duplicate() }
}

} // verus!
