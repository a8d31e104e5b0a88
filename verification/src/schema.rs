//! Schema descriptors: the declared shape of a tool's input or output.

use crate::text::same_text;
use vstd::prelude::*;

verus! {

/// The kinds of scalar that a schema can ask for.
#[derive(Clone, Copy, Debug, PartialEq, Eq, Structural)]
pub enum ScalarKind {
    /// `true` or `false`.
    Boolean,
    /// A number that fits in 64 signed bits.
    Integer,
    /// Any number.
    Number,
    /// A string.
    Text,
}

/// A recursive description of a value's shape.
#[derive(Debug, PartialEq, Eq)]
pub enum SchemaDescriptor {
    /// One scalar of the given kind.
    Scalar(ScalarKind),
    /// An object with the given fields, in declared order.
    Object(Vec<Field>),
    /// Exactly one of the given variants, in declared order. The value names
    /// its variant: it is an object with the variant's name as a key.
    TaggedUnion(Vec<Variant>),
}

/// One declared field of an object.
#[derive(Debug, PartialEq, Eq)]
pub struct Field {
    pub name: String,
    pub schema: SchemaDescriptor,
    /// Whether the field has to be there. An optional field that is absent,
    /// or null, is unset.
    pub required: bool,
}

/// One declared variant of a tagged union.
#[derive(Debug, PartialEq, Eq)]
pub struct Variant {
    pub name: String,
    pub schema: SchemaDescriptor,
}

/// The mathematical value of a [`SchemaDescriptor`].
pub enum SchemaView {
    Scalar(ScalarKind),
    Object(Seq<FieldView>),
    TaggedUnion(Seq<VariantView>),
}

/// The mathematical value of a [`Field`].
pub struct FieldView {
    pub name: Seq<char>,
    pub schema: SchemaView,
    pub required: bool,
}

/// The mathematical value of a [`Variant`].
pub struct VariantView {
    pub name: Seq<char>,
    pub schema: SchemaView,
}

/// The values of a sequence of fields, one for one.
pub open spec fn view_fields(fields: Seq<Field>) -> Seq<FieldView>
    decreases fields, 0nat,
{
    Seq::new(
        fields.len(),
        |i: int|
            if 0 <= i < fields.len() {
                FieldView {
                    name: fields[i].name@,
                    schema: fields[i].schema.view(),
                    required: fields[i].required,
                }
            } else {
                FieldView {
                    name: Seq::empty(),
                    schema: SchemaView::Object(Seq::empty()),
                    required: false,
                }
            },
    )
}

/// The values of a sequence of variants, one for one.
pub open spec fn view_variants(variants: Seq<Variant>) -> Seq<VariantView>
    decreases variants, 0nat,
{
    Seq::new(
        variants.len(),
        |i: int|
            if 0 <= i < variants.len() {
                VariantView { name: variants[i].name@, schema: variants[i].schema.view() }
            } else {
                VariantView { name: Seq::empty(), schema: SchemaView::Object(Seq::empty()) }
            },
    )
}

impl View for SchemaDescriptor {
    type V = SchemaView;

    open spec fn view(&self) -> SchemaView
        decreases self, 1nat,
    {
        match self {
            SchemaDescriptor::Scalar(kind) => SchemaView::Scalar(*kind),
            SchemaDescriptor::Object(fields) => SchemaView::Object(view_fields(fields@)),
            SchemaDescriptor::TaggedUnion(variants) => SchemaView::TaggedUnion(
                view_variants(variants@),
            ),
        }
    }
}

impl View for Field {
    type V = FieldView;

    open spec fn view(&self) -> FieldView {
        FieldView { name: self.name@, schema: self.schema@, required: self.required }
    }
}

impl View for Variant {
    type V = VariantView;

    open spec fn view(&self) -> VariantView {
        VariantView { name: self.name@, schema: self.schema@ }
    }
}

/// No two fields share a name.
pub open spec fn distinct_field_names(fields: Seq<FieldView>) -> bool {
    forall|i: int, j: int|
        0 <= i < j < fields.len() ==> (#[trigger] fields[i]).name != (#[trigger] fields[j]).name
}

/// No two variants share a name.
pub open spec fn distinct_variant_names(variants: Seq<VariantView>) -> bool {
    forall|i: int, j: int|
        0 <= i < j < variants.len() ==> (#[trigger] variants[i]).name != (
        #[trigger] variants[j]).name
}

/// A schema is well formed when, at every level, the fields of an object have
/// distinct names and the variants of a union have distinct names: the name
/// under which a value stands then decides what it is read as.
pub open spec fn well_formed(schema: SchemaView) -> bool
    decreases schema,
{
    match schema {
        SchemaView::Scalar(_) => true,
        SchemaView::Object(fields) => {
            &&& distinct_field_names(fields)
            &&& forall|i: int|
                0 <= i < fields.len() ==> well_formed((#[trigger] fields[i]).schema)
        },
        SchemaView::TaggedUnion(variants) => {
            &&& distinct_variant_names(variants)
            &&& forall|i: int|
                0 <= i < variants.len() ==> well_formed((#[trigger] variants[i]).schema)
        },
    }
}

impl Field {
    /// A field that has to be there.
    pub fn required(name: &str, schema: SchemaDescriptor) -> (field: Field)
        ensures
            field@ == (FieldView { name: name@, schema: schema@, required: true }),
    {
        Field { name: name.to_owned(), schema, required: true }
    }

    /// A field that may be absent.
    pub fn optional(name: &str, schema: SchemaDescriptor) -> (field: Field)
        ensures
            field@ == (FieldView { name: name@, schema: schema@, required: false }),
    {
        Field { name: name.to_owned(), schema, required: false }
    }
}

impl Variant {
    /// The variant called `name`, of shape `schema`.
    pub fn new(name: &str, schema: SchemaDescriptor) -> (variant: Variant)
        ensures
            variant@ == (VariantView { name: name@, schema: schema@ }),
    {
        Variant { name: name.to_owned(), schema }
    }
}

impl SchemaDescriptor {
    /// The schema of a string.
    pub fn text() -> (schema: SchemaDescriptor)
        ensures
            schema@ == SchemaView::Scalar(ScalarKind::Text),
    {
        SchemaDescriptor::Scalar(ScalarKind::Text)
    }

    /// The schema of an object with the given fields.
    pub fn object(fields: Vec<Field>) -> (schema: SchemaDescriptor)
        ensures
            schema@ == SchemaView::Object(view_fields(fields@)),
    {
        SchemaDescriptor::Object(fields)
    }

    /// The schema of a union of the given variants.
    pub fn tagged_union(variants: Vec<Variant>) -> (schema: SchemaDescriptor)
        ensures
            schema@ == SchemaView::TaggedUnion(view_variants(variants@)),
    {
        SchemaDescriptor::TaggedUnion(variants)
    }

    /// A copy with the same value.
    pub fn duplicate(&self) -> (copy: SchemaDescriptor)
        ensures
            copy@ == self@,
        decreases self, 0nat,
    {
        match self {
            SchemaDescriptor::Scalar(kind) => SchemaDescriptor::Scalar(*kind),
            SchemaDescriptor::Object(fields) => SchemaDescriptor::Object(duplicate_fields(fields)),
            SchemaDescriptor::TaggedUnion(variants) => SchemaDescriptor::TaggedUnion(
                duplicate_variants(variants),
            ),
        }
    }
}

/// A copy of each field, in order.
fn duplicate_fields(fields: &Vec<Field>) -> (copy: Vec<Field>)
    ensures
        view_fields(copy@) == view_fields(fields@),
    decreases fields, 0nat,
{
    let mut copy: Vec<Field> = Vec::new();
    let mut i: usize = 0;
    while i < fields.len()
        invariant
            i <= fields.len(),
            copy.len() == i,
            forall|j: int| 0 <= j < i ==> (#[trigger] copy[j])@ == fields[j]@,
        decreases fields.len() - i,
    {
        let field = &fields[i];
        copy.push(
            Field {
                name: field.name.clone(),
                schema: field.schema.duplicate(),
                required: field.required,
            },
        );
        i += 1;
    }
    assert(view_fields(copy@) =~= view_fields(fields@));
    copy
}

/// A copy of each variant, in order.
fn duplicate_variants(variants: &Vec<Variant>) -> (copy: Vec<Variant>)
    ensures
        view_variants(copy@) == view_variants(variants@),
    decreases variants, 0nat,
{
    let mut copy: Vec<Variant> = Vec::new();
    let mut i: usize = 0;
    while i < variants.len()
        invariant
            i <= variants.len(),
            copy.len() == i,
            forall|j: int| 0 <= j < i ==> (#[trigger] copy[j])@ == variants[j]@,
        decreases variants.len() - i,
    {
        let variant = &variants[i];
        copy.push(Variant { name: variant.name.clone(), schema: variant.schema.duplicate() });
        i += 1;
    }
    assert(view_variants(copy@) =~= view_variants(variants@));
    copy
}

impl SchemaDescriptor {
    /// Whether the schema is well formed.
    pub fn is_well_formed(&self) -> (ok: bool)
        ensures
            ok == well_formed(self@),
        decreases self, 0nat,
    {
        match self {
            SchemaDescriptor::Scalar(_) => true,
            SchemaDescriptor::Object(fields) => {
                let distinct = fields_are_distinct(fields);
                let inside = fields_are_well_formed(fields);
                distinct && inside
            },
            SchemaDescriptor::TaggedUnion(variants) => {
                let distinct = variants_are_distinct(variants);
                let inside = variants_are_well_formed(variants);
                distinct && inside
            },
        }
    }
}

fn fields_are_distinct(fields: &Vec<Field>) -> (ok: bool)
    ensures
        ok == distinct_field_names(view_fields(fields@)),
{
    let ghost views = view_fields(fields@);
    let mut j: usize = 0;
    while j < fields.len()
        invariant
            j <= fields.len(),
            views == view_fields(fields@),
            forall|a: int, b: int|
                0 <= a < b < j ==> (#[trigger] views[a]).name != (#[trigger] views[b]).name,
        decreases fields.len() - j,
    {
        let mut i: usize = 0;
        while i < j
            invariant
                i <= j < fields.len(),
                views == view_fields(fields@),
                forall|a: int| 0 <= a < i ==> (#[trigger] views[a]).name != views[j as int].name,
            decreases j - i,
        {
            if same_text(fields[i].name.as_str(), fields[j].name.as_str()) {
                assert(views[i as int].name == views[j as int].name);
                return false;
            }
            i += 1;
        }
        j += 1;
    }
    true
}

fn variants_are_distinct(variants: &Vec<Variant>) -> (ok: bool)
    ensures
        ok == distinct_variant_names(view_variants(variants@)),
{
    let ghost views = view_variants(variants@);
    let mut j: usize = 0;
    while j < variants.len()
        invariant
            j <= variants.len(),
            views == view_variants(variants@),
            forall|a: int, b: int|
                0 <= a < b < j ==> (#[trigger] views[a]).name != (#[trigger] views[b]).name,
        decreases variants.len() - j,
    {
        let mut i: usize = 0;
        while i < j
            invariant
                i <= j < variants.len(),
                views == view_variants(variants@),
                forall|a: int| 0 <= a < i ==> (#[trigger] views[a]).name != views[j as int].name,
            decreases j - i,
        {
            if same_text(variants[i].name.as_str(), variants[j].name.as_str()) {
                assert(views[i as int].name == views[j as int].name);
                return false;
            }
            i += 1;
        }
        j += 1;
    }
    true
}

fn fields_are_well_formed(fields: &Vec<Field>) -> (ok: bool)
    ensures
        ok == (forall|i: int|
            0 <= i < fields@.len() ==> well_formed((#[trigger] view_fields(fields@)[i]).schema)),
    decreases fields, 0nat,
{
    let ghost views = view_fields(fields@);
    let mut i: usize = 0;
    while i < fields.len()
        invariant
            i <= fields.len(),
            views == view_fields(fields@),
            forall|k: int| 0 <= k < i ==> well_formed((#[trigger] views[k]).schema),
        decreases fields.len() - i,
    {
        assert(views[i as int].schema == fields[i as int].schema@);
        if !fields[i].schema.is_well_formed() {
            return false;
        }
        i += 1;
    }
    true
}

fn variants_are_well_formed(variants: &Vec<Variant>) -> (ok: bool)
    ensures
        ok == (forall|i: int|
            0 <= i < variants@.len() ==> well_formed(
                (#[trigger] view_variants(variants@)[i]).schema,
            )),
    decreases variants, 0nat,
{
    let ghost views = view_variants(variants@);
    let mut i: usize = 0;
    while i < variants.len()
        invariant
            i <= variants.len(),
            views == view_variants(variants@),
            forall|k: int| 0 <= k < i ==> well_formed((#[trigger] views[k]).schema),
        decreases variants.len() - i,
    {
        assert(views[i as int].schema == variants[i as int].schema@);
        if !variants[i].schema.is_well_formed() {
            return false;
        }
        i += 1;
    }
    true
}

} // verus!
