//! Advertising a schema: its shape written out as a JSON Schema document.

use crate::payload::{view_items, view_members, Member, MemberView, Payload, PayloadView};
use crate::schema::{
    view_fields, view_variants, Field, FieldView, ScalarKind, SchemaDescriptor, SchemaView,
    Variant, VariantView,
};
use vstd::prelude::*;

verus! {

/// The name that JSON Schema has for a kind of scalar.
pub open spec fn kind_name(kind: ScalarKind) -> Seq<char> {
    match kind {
        ScalarKind::Boolean => "boolean"@,
        ScalarKind::Integer => "integer"@,
        ScalarKind::Number => "number"@,
        ScalarKind::Text => "string"@,
    }
}

/// The JSON Schema document of an object with the given properties, of which
/// the given ones are required.
pub open spec fn object_document(properties: Seq<MemberView>, required: Seq<PayloadView>)
    -> PayloadView {
    PayloadView::Object(
        seq![
            MemberView { name: "type"@, value: PayloadView::Text("object"@) },
            MemberView { name: "properties"@, value: PayloadView::Object(properties) },
            MemberView { name: "required"@, value: PayloadView::List(required) },
        ],
    )
}

/// The JSON Schema document that describes `schema`. A scalar is described by
/// its type; an object by its properties, in declared order, and the names of
/// the required ones; a union by the list of its variants, each an object
/// whose one required property has the variant's name.
pub open spec fn json_schema_spec(schema: SchemaView) -> PayloadView
    decreases schema, 0nat,
{
    match schema {
        SchemaView::Scalar(kind) => PayloadView::Object(
            seq![MemberView { name: "type"@, value: PayloadView::Text(kind_name(kind)) }],
        ),
        SchemaView::Object(fields) => object_document(
            properties_of(fields, fields.len()),
            required_of(fields, fields.len()),
        ),
        SchemaView::TaggedUnion(variants) => PayloadView::Object(
            seq![
                MemberView {
                    name: "oneOf"@,
                    value: PayloadView::List(documents_of(variants, variants.len())),
                },
            ],
        ),
    }
}

/// The properties of the first `n` fields.
pub open spec fn properties_of(fields: Seq<FieldView>, n: nat) -> Seq<MemberView>
    decreases fields, n,
{
    if n == 0 || n > fields.len() {
        Seq::empty()
    } else {
        properties_of(fields, (n - 1) as nat).push(
            MemberView { name: fields[n - 1].name, value: json_schema_spec(fields[n - 1].schema) },
        )
    }
}

/// The names of those of the first `n` fields that are required.
pub open spec fn required_of(fields: Seq<FieldView>, n: nat) -> Seq<PayloadView>
    decreases n,
{
    if n == 0 || n > fields.len() {
        Seq::empty()
    } else if fields[n - 1].required {
        required_of(fields, (n - 1) as nat).push(PayloadView::Text(fields[n - 1].name))
    } else {
        required_of(fields, (n - 1) as nat)
    }
}

/// The documents of the first `n` variants.
pub open spec fn documents_of(variants: Seq<VariantView>, n: nat) -> Seq<PayloadView>
    decreases variants, n,
{
    if n == 0 || n > variants.len() {
        Seq::empty()
    } else {
        documents_of(variants, (n - 1) as nat).push(
            object_document(
                seq![
                    MemberView {
                        name: variants[n - 1].name,
                        value: json_schema_spec(variants[n - 1].schema),
                    },
                ],
                seq![PayloadView::Text(variants[n - 1].name)],
            ),
        )
    }
}

fn name_of(kind: ScalarKind) -> (name: String)
    ensures
        name@ == kind_name(kind),
{
    match kind {
        ScalarKind::Boolean => "boolean".to_owned(),
        ScalarKind::Integer => "integer".to_owned(),
        ScalarKind::Number => "number".to_owned(),
        ScalarKind::Text => "string".to_owned(),
    }
}

fn document_of_object(properties: Vec<Member>, required: Vec<Payload>) -> (document: Payload)
    ensures
        document@ == object_document(view_members(properties@), view_items(required@)),
{
    let members: Vec<Member> = vec![
        Member::new("type", Payload::Text("object".to_owned())),
        Member::new("properties", Payload::Object(properties)),
        Member::new("required", Payload::List(required)),
    ];
    assert(view_members(members@) =~= object_document(
        view_members(properties@),
        view_items(required@),
    )->Object_0);
    Payload::Object(members)
}

impl SchemaDescriptor {
    /// The JSON Schema document that describes this schema.
    pub fn json_schema(&self) -> (document: Payload)
        ensures
            document@ == json_schema_spec(self@),
        decreases self, 0nat,
    {
        match self {
            SchemaDescriptor::Scalar(kind) => {
                let members: Vec<Member> = vec![
                    Member::new("type", Payload::Text(name_of(*kind))),
                ];
                assert(view_members(members@) =~= json_schema_spec(self@)->Object_0);
                Payload::Object(members)
            },
            SchemaDescriptor::Object(fields) => {
                document_of_object(properties(fields), required(fields))
            },
            SchemaDescriptor::TaggedUnion(variants) => {
                let members: Vec<Member> = vec![
                    Member::new("oneOf", Payload::List(documents(variants))),
                ];
                assert(view_members(members@) =~= json_schema_spec(self@)->Object_0);
                Payload::Object(members)
            },
        }
    }
}

fn properties(fields: &Vec<Field>) -> (written: Vec<Member>)
    ensures
        view_members(written@) == properties_of(view_fields(fields@), fields@.len()),
    decreases fields, fields@.len(),
{
    let mut written: Vec<Member> = Vec::new();
    let mut i: usize = 0;
    assert(view_members(written@) =~= Seq::<MemberView>::empty());
    while i < fields.len()
        invariant
            i <= fields.len(),
            view_members(written@) == properties_of(view_fields(fields@), i as nat),
        decreases fields.len() - i,
    {
        let ghost before = view_members(written@);
        assert(view_fields(fields@)[i as int] == fields[i as int]@);
        let member = Member {
            name: fields[i].name.clone(),
            value: fields[i].schema.json_schema(),
        };
        written.push(member);
        assert(view_members(written@) =~= before.push(
            MemberView {
                name: fields[i as int].name@,
                value: json_schema_spec(fields[i as int].schema@),
            },
        ));
        i += 1;
    }
    written
}

fn required(fields: &Vec<Field>) -> (names: Vec<Payload>)
    ensures
        view_items(names@) == required_of(view_fields(fields@), fields@.len()),
{
    let mut names: Vec<Payload> = Vec::new();
    let mut i: usize = 0;
    assert(view_items(names@) =~= Seq::<PayloadView>::empty());
    while i < fields.len()
        invariant
            i <= fields.len(),
            view_items(names@) == required_of(view_fields(fields@), i as nat),
        decreases fields.len() - i,
    {
        let ghost before = view_items(names@);
        assert(view_fields(fields@)[i as int] == fields[i as int]@);
        if fields[i].required {
            names.push(Payload::Text(fields[i].name.clone()));
            assert(view_items(names@) =~= before.push(PayloadView::Text(fields[i as int].name@)));
        }
        i += 1;
    }
    names
}

fn documents(variants: &Vec<Variant>) -> (written: Vec<Payload>)
    ensures
        view_items(written@) == documents_of(view_variants(variants@), variants@.len()),
    decreases variants, variants@.len(),
{
    let mut written: Vec<Payload> = Vec::new();
    let mut i: usize = 0;
    assert(view_items(written@) =~= Seq::<PayloadView>::empty());
    while i < variants.len()
        invariant
            i <= variants.len(),
            view_items(written@) == documents_of(view_variants(variants@), i as nat),
        decreases variants.len() - i,
    {
        let ghost before = view_items(written@);
        assert(view_variants(variants@)[i as int] == variants[i as int]@);
        let property: Vec<Member> = vec![
            Member { name: variants[i].name.clone(), value: variants[i].schema.json_schema() },
        ];
        let name: Vec<Payload> = vec![Payload::Text(variants[i].name.clone())];
        assert(view_members(property@) =~= seq![
            MemberView {
                name: variants[i as int].name@,
                value: json_schema_spec(variants[i as int].schema@),
            },
        ]);
        assert(view_items(name@) =~= seq![PayloadView::Text(variants[i as int].name@)]);
        let document = document_of_object(property, name);
        written.push(document);
        assert(view_items(written@) =~= before.push(document@));
        i += 1;
    }
    written
}

} // verus!
