//! The sample tools' inputs and output, each with its declared shape.

use crate::decode::{conforms, field_conforms, variant_conforms};
use crate::payload::{view_members, Member, MemberView, Payload, PayloadView};
use crate::schema::{
    view_fields, view_variants, well_formed, Field, FieldView, ScalarKind, SchemaDescriptor,
    SchemaView, Variant, VariantView,
};
use crate::shaped::Shaped;
use crate::text::same_text;
use vstd::prelude::*;

verus! {

/// The shape of an object with one required string field, `message`.
pub open spec fn message_schema() -> SchemaView {
    SchemaView::Object(
        seq![
            FieldView {
                name: "message"@,
                schema: SchemaView::Scalar(ScalarKind::Text),
                required: true,
            },
        ],
    )
}

/// The typed object whose `message` is the given string.
pub open spec fn message_typed(message: Seq<char>) -> PayloadView {
    PayloadView::Object(seq![MemberView { name: "message"@, value: PayloadView::Text(message) }])
}

/// The `message` of a typed object that holds that and nothing else.
pub open spec fn message_untyped(value: PayloadView) -> Option<Seq<char>> {
    match value {
        PayloadView::Object(members) => {
            if members.len() == 1 && members[0].name == "message"@ {
                match members[0].value {
                    PayloadView::Text(message) => Some(message),
                    _ => None,
                }
            } else {
                None
            }
        },
        _ => None,
    }
}

/// The names that the shapes of this module use differ from one another
/// wherever two of them stand side by side.
pub proof fn lemma_names_differ()
    ensures
        "Hello"@ != "World"@,
        "message"@ != "nested_item"@,
        "message"@ != "optional_message"@,
{
    reveal_strlit("Hello");
    reveal_strlit("World");
    reveal_strlit("message");
    reveal_strlit("nested_item");
    reveal_strlit("optional_message");
    assert("Hello"@[0] != "World"@[0]);
    assert("message"@.len() != "nested_item"@.len());
    assert("message"@.len() != "optional_message"@.len());
}

/// In a typed object each member is the typed form of the field at its place.
pub proof fn lemma_conforming_member(fields: Seq<FieldView>, members: Seq<MemberView>, i: int)
    requires
        conforms(SchemaView::Object(fields), PayloadView::Object(members)),
        0 <= i < fields.len(),
    ensures
        members.len() == fields.len(),
        field_conforms(fields[i], members[i]),
{
    let schema = SchemaView::Object(fields);
    assert(field_conforms(schema->Object_0[i], members[i]));
}

proof fn lemma_message_typed(message: Seq<char>)
    ensures
        well_formed(message_schema()),
        conforms(message_schema(), message_typed(message)),
        message_untyped(message_typed(message)) == Some(message),
{
    let schema = message_schema();
    let value = message_typed(message);
    assert(well_formed(schema->Object_0[0].schema));
    assert(field_conforms(schema->Object_0[0], value->Object_0[0]));
}

proof fn lemma_message_untyped(value: PayloadView)
    ensures
        match message_untyped(value) {
            Some(message) => message_typed(message) == value,
            None => !conforms(message_schema(), value),
        },
{
    match message_untyped(value) {
        Some(message) => {
            assert(value->Object_0 =~= seq![
                MemberView { name: "message"@, value: PayloadView::Text(message) },
            ]);
        },
        None => {
            if conforms(message_schema(), value) {
                lemma_conforming_member(message_schema()->Object_0, value->Object_0, 0);
                assert(false);
            }
        },
    }
}

fn describe_message() -> (schema: SchemaDescriptor)
    ensures
        schema@ == message_schema(),
{
    let fields: Vec<Field> = vec![Field::required("message", SchemaDescriptor::text())];
    assert(view_fields(fields@) =~= message_schema()->Object_0);
    SchemaDescriptor::Object(fields)
}

fn write_message(message: &String) -> (value: Payload)
    ensures
        value@ == message_typed(message@),
{
    let members: Vec<Member> = vec![Member::new("message", Payload::Text(message.clone()))];
    assert(view_members(members@) =~= message_typed(message@)->Object_0);
    Payload::Object(members)
}

fn read_message(value: &Payload) -> (read: Option<String>)
    ensures
        match read {
            Some(message) => message_untyped(value@) == Some(message@),
            None => message_untyped(value@) is None,
        },
{
    match value {
        Payload::Object(members) => {
            if members.len() == 1 {
                assert(view_members(members@)[0] == members[0]@);
                if same_text(members[0].name.as_str(), "message") {
                    match &members[0].value {
                        Payload::Text(message) => Some(message.clone()),
                        _ => None,
                    }
                } else {
                    None
                }
            } else {
                None
            }
        },
        _ => None,
    }
}

/// What is nested in the input of `echo`.
#[derive(Clone, Debug, PartialEq, Eq)]
pub struct NestedItem {
    pub message: String,
}

/// The mathematical value of a [`NestedItem`].
pub struct NestedItemView {
    pub message: Seq<char>,
}

impl View for NestedItem {
    type V = NestedItemView;

    open spec fn view(&self) -> NestedItemView {
        NestedItemView { message: self.message@ }
    }
}

impl Shaped for NestedItem {
    open spec fn schema() -> SchemaView {
        message_schema()
    }

    open spec fn typed(value: NestedItemView) -> PayloadView {
        message_typed(value.message)
    }

    open spec fn untyped(value: PayloadView) -> Option<NestedItemView> {
        match message_untyped(value) {
            Some(message) => Some(NestedItemView { message }),
            None => None,
        }
    }

    proof fn lemma_typed(value: NestedItemView) {
        lemma_message_typed(value.message);
    }

    proof fn lemma_untyped(value: PayloadView) {
        lemma_message_untyped(value);
    }

    fn describe() -> (schema: SchemaDescriptor) {
        describe_message()
    }

    fn to_typed(&self) -> (value: Payload) {
        write_message(&self.message)
    }

    fn from_typed(value: &Payload) -> (read: Option<Self>) {
        match read_message(value) {
            Some(message) => Some(NestedItem { message }),
            None => None,
        }
    }
}

/// What every sample tool returns.
#[derive(Clone, Debug, PartialEq, Eq)]
pub struct EchoOutput {
    pub message: String,
}

/// The mathematical value of a [`EchoOutput`].
pub struct EchoOutputView {
    pub message: Seq<char>,
}

impl View for EchoOutput {
    type V = EchoOutputView;

    open spec fn view(&self) -> EchoOutputView {
        EchoOutputView { message: self.message@ }
    }
}

impl Shaped for EchoOutput {
    open spec fn schema() -> SchemaView {
        message_schema()
    }

    open spec fn typed(value: EchoOutputView) -> PayloadView {
        message_typed(value.message)
    }

    open spec fn untyped(value: PayloadView) -> Option<EchoOutputView> {
        match message_untyped(value) {
            Some(message) => Some(EchoOutputView { message }),
            None => None,
        }
    }

    proof fn lemma_typed(value: EchoOutputView) {
        lemma_message_typed(value.message);
    }

    proof fn lemma_untyped(value: PayloadView) {
        lemma_message_untyped(value);
    }

    fn describe() -> (schema: SchemaDescriptor) {
        describe_message()
    }

    fn to_typed(&self) -> (value: Payload) {
        write_message(&self.message)
    }

    fn from_typed(value: &Payload) -> (read: Option<Self>) {
        match read_message(value) {
            Some(message) => Some(EchoOutput { message }),
            None => None,
        }
    }
}

/// The first variant of [`OneOf`].
#[derive(Clone, Debug, PartialEq, Eq)]
pub struct Hello {
    pub message: String,
}

/// The mathematical value of a [`Hello`].
pub struct HelloView {
    pub message: Seq<char>,
}

impl View for Hello {
    type V = HelloView;

    open spec fn view(&self) -> HelloView {
        HelloView { message: self.message@ }
    }
}

impl Shaped for Hello {
    open spec fn schema() -> SchemaView {
        message_schema()
    }

    open spec fn typed(value: HelloView) -> PayloadView {
        message_typed(value.message)
    }

    open spec fn untyped(value: PayloadView) -> Option<HelloView> {
        match message_untyped(value) {
            Some(message) => Some(HelloView { message }),
            None => None,
        }
    }

    proof fn lemma_typed(value: HelloView) {
        lemma_message_typed(value.message);
    }

    proof fn lemma_untyped(value: PayloadView) {
        lemma_message_untyped(value);
    }

    fn describe() -> (schema: SchemaDescriptor) {
        describe_message()
    }

    fn to_typed(&self) -> (value: Payload) {
        write_message(&self.message)
    }

    fn from_typed(value: &Payload) -> (read: Option<Self>) {
        match read_message(value) {
            Some(message) => Some(Hello { message }),
            None => None,
        }
    }
}

/// The second variant of [`OneOf`].
#[derive(Clone, Debug, PartialEq, Eq)]
pub struct World {
    pub message: String,
}

/// The mathematical value of a [`World`].
pub struct WorldView {
    pub message: Seq<char>,
}

impl View for World {
    type V = WorldView;

    open spec fn view(&self) -> WorldView {
        WorldView { message: self.message@ }
    }
}

impl Shaped for World {
    open spec fn schema() -> SchemaView {
        message_schema()
    }

    open spec fn typed(value: WorldView) -> PayloadView {
        message_typed(value.message)
    }

    open spec fn untyped(value: PayloadView) -> Option<WorldView> {
        match message_untyped(value) {
            Some(message) => Some(WorldView { message }),
            None => None,
        }
    }

    proof fn lemma_typed(value: WorldView) {
        lemma_message_typed(value.message);
    }

    proof fn lemma_untyped(value: PayloadView) {
        lemma_message_untyped(value);
    }

    fn describe() -> (schema: SchemaDescriptor) {
        describe_message()
    }

    fn to_typed(&self) -> (value: Payload) {
        write_message(&self.message)
    }

    fn from_typed(value: &Payload) -> (read: Option<Self>) {
        match read_message(value) {
            Some(message) => Some(World { message }),
            None => None,
        }
    }
}

/// The input of `echo`.
#[derive(Clone, Debug, PartialEq, Eq)]
pub struct EchoInput {
    pub message: String,
    pub nested_item: NestedItem,
}

/// The mathematical value of an [`EchoInput`].
pub struct EchoInputView {
    pub message: Seq<char>,
    pub nested_item: NestedItemView,
}

impl View for EchoInput {
    type V = EchoInputView;

    open spec fn view(&self) -> EchoInputView {
        EchoInputView { message: self.message@, nested_item: self.nested_item@ }
    }
}

impl Shaped for EchoInput {
    open spec fn schema() -> SchemaView {
        SchemaView::Object(
            seq![
                FieldView {
                    name: "message"@,
                    schema: SchemaView::Scalar(ScalarKind::Text),
                    required: true,
                },
                FieldView { name: "nested_item"@, schema: message_schema(), required: true },
            ],
        )
    }

    open spec fn typed(value: EchoInputView) -> PayloadView {
        PayloadView::Object(
            seq![
                MemberView { name: "message"@, value: PayloadView::Text(value.message) },
                MemberView {
                    name: "nested_item"@,
                    value: message_typed(value.nested_item.message),
                },
            ],
        )
    }

    open spec fn untyped(value: PayloadView) -> Option<EchoInputView> {
        match value {
            PayloadView::Object(members) => {
                if members.len() == 2 && members[0].name == "message"@ && members[1].name
                    == "nested_item"@ {
                    match (members[0].value, message_untyped(members[1].value)) {
                        (PayloadView::Text(message), Some(nested)) => Some(
                            EchoInputView {
                                message,
                                nested_item: NestedItemView { message: nested },
                            },
                        ),
                        _ => None,
                    }
                } else {
                    None
                }
            },
            _ => None,
        }
    }

    proof fn lemma_typed(value: EchoInputView) {
        let schema = Self::schema();
        let typed = Self::typed(value);
        lemma_names_differ();
        lemma_message_typed(value.nested_item.message);
        assert(well_formed(schema->Object_0[0].schema));
        assert(well_formed(schema->Object_0[1].schema));
        assert(field_conforms(schema->Object_0[0], typed->Object_0[0]));
        assert(field_conforms(schema->Object_0[1], typed->Object_0[1]));
    }

    proof fn lemma_untyped(value: PayloadView) {
        match Self::untyped(value) {
            Some(read) => {
                lemma_message_untyped(value->Object_0[1].value);
                assert(value->Object_0 =~= Self::typed(read)->Object_0);
            },
            None => {
                if conforms(Self::schema(), value) {
                    lemma_conforming_member(Self::schema()->Object_0, value->Object_0, 0);
                    lemma_conforming_member(Self::schema()->Object_0, value->Object_0, 1);
                    lemma_message_untyped(value->Object_0[1].value);
                    assert(false);
                }
            },
        }
    }

    fn describe() -> (schema: SchemaDescriptor) {
        let fields: Vec<Field> = vec![
            Field::required("message", SchemaDescriptor::text()),
            Field::required("nested_item", describe_message()),
        ];
        assert(view_fields(fields@) =~= Self::schema()->Object_0);
        SchemaDescriptor::Object(fields)
    }

    fn to_typed(&self) -> (value: Payload) {
        let members: Vec<Member> = vec![
            Member::new("message", Payload::Text(self.message.clone())),
            Member::new("nested_item", write_message(&self.nested_item.message)),
        ];
        assert(view_members(members@) =~= Self::typed(self@)->Object_0);
        Payload::Object(members)
    }

    fn from_typed(value: &Payload) -> (read: Option<Self>) {
        match value {
            Payload::Object(members) => {
                if members.len() == 2 {
                    assert(view_members(members@)[0] == members[0]@);
                    assert(view_members(members@)[1] == members[1]@);
                    if same_text(members[0].name.as_str(), "message") && same_text(
                        members[1].name.as_str(),
                        "nested_item",
                    ) {
                        match (&members[0].value, read_message(&members[1].value)) {
                            (Payload::Text(message), Some(nested)) => Some(
                                EchoInput {
                                    message: message.clone(),
                                    nested_item: NestedItem { message: nested },
                                },
                            ),
                            _ => None,
                        }
                    } else {
                        None
                    }
                } else {
                    None
                }
            },
            _ => None,
        }
    }
}

/// A value that is exactly one of two named things.
#[derive(Clone, Debug, PartialEq, Eq)]
pub enum OneOf {
    Hello(Hello),
    World(World),
}

/// The mathematical value of a [`OneOf`].
pub enum OneOfView {
    Hello(HelloView),
    World(WorldView),
}

impl View for OneOf {
    type V = OneOfView;

    open spec fn view(&self) -> OneOfView {
        match self {
            OneOf::Hello(hello) => OneOfView::Hello(hello@),
            OneOf::World(world) => OneOfView::World(world@),
        }
    }
}

impl Shaped for OneOf {
    open spec fn schema() -> SchemaView {
        SchemaView::TaggedUnion(
            seq![
                VariantView { name: "Hello"@, schema: message_schema() },
                VariantView { name: "World"@, schema: message_schema() },
            ],
        )
    }

    open spec fn typed(value: OneOfView) -> PayloadView {
        match value {
            OneOfView::Hello(hello) => PayloadView::Object(
                seq![MemberView { name: "Hello"@, value: message_typed(hello.message) }],
            ),
            OneOfView::World(world) => PayloadView::Object(
                seq![MemberView { name: "World"@, value: message_typed(world.message) }],
            ),
        }
    }

    open spec fn untyped(value: PayloadView) -> Option<OneOfView> {
        match value {
            PayloadView::Object(members) => {
                if members.len() != 1 {
                    None
                } else if members[0].name == "Hello"@ {
                    match message_untyped(members[0].value) {
                        Some(message) => Some(OneOfView::Hello(HelloView { message })),
                        None => None,
                    }
                } else if members[0].name == "World"@ {
                    match message_untyped(members[0].value) {
                        Some(message) => Some(OneOfView::World(WorldView { message })),
                        None => None,
                    }
                } else {
                    None
                }
            },
            _ => None,
        }
    }

    proof fn lemma_typed(value: OneOfView) {
        let schema = Self::schema();
        let typed = Self::typed(value);
        lemma_names_differ();
        assert(well_formed(schema->TaggedUnion_0[0].schema)) by {
            lemma_message_typed(Seq::empty());
        }
        assert(well_formed(schema->TaggedUnion_0[1].schema)) by {
            lemma_message_typed(Seq::empty());
        }
        match value {
            OneOfView::Hello(hello) => {
                lemma_message_typed(hello.message);
                assert(variant_conforms(schema->TaggedUnion_0[0], typed->Object_0[0]));
            },
            OneOfView::World(world) => {
                lemma_message_typed(world.message);
                assert(variant_conforms(schema->TaggedUnion_0[1], typed->Object_0[0]));
            },
        }
    }

    proof fn lemma_untyped(value: PayloadView) {
        match Self::untyped(value) {
            Some(read) => {
                lemma_message_untyped(value->Object_0[0].value);
                assert(value->Object_0 =~= Self::typed(read)->Object_0);
            },
            None => {
                if conforms(Self::schema(), value) {
                    let variants = Self::schema()->TaggedUnion_0;
                    let j = choose|j: int|
                        0 <= j < variants.len() && variant_conforms(
                            #[trigger] variants[j],
                            value->Object_0[0],
                        );
                    lemma_message_untyped(value->Object_0[0].value);
                    lemma_names_differ();
                    assert(j == 0 || j == 1);
                    assert(false);
                }
            },
        }
    }

    fn describe() -> (schema: SchemaDescriptor) {
        let variants: Vec<Variant> = vec![
            Variant::new("Hello", describe_message()),
            Variant::new("World", describe_message()),
        ];
        assert(view_variants(variants@) =~= Self::schema()->TaggedUnion_0);
        SchemaDescriptor::TaggedUnion(variants)
    }

    fn to_typed(&self) -> (value: Payload) {
        let member = match self {
            OneOf::Hello(hello) => Member::new("Hello", write_message(&hello.message)),
            OneOf::World(world) => Member::new("World", write_message(&world.message)),
        };
        let members: Vec<Member> = vec![member];
        assert(view_members(members@) =~= Self::typed(self@)->Object_0);
        Payload::Object(members)
    }

    fn from_typed(value: &Payload) -> (read: Option<Self>) {
        match value {
            Payload::Object(members) => {
                if members.len() != 1 {
                    None
                } else {
                    assert(view_members(members@)[0] == members[0]@);
                    if same_text(members[0].name.as_str(), "Hello") {
                        match read_message(&members[0].value) {
                            Some(message) => Some(OneOf::Hello(Hello { message })),
                            None => None,
                        }
                    } else if same_text(members[0].name.as_str(), "World") {
                        match read_message(&members[0].value) {
                            Some(message) => Some(OneOf::World(World { message })),
                            None => None,
                        }
                    } else {
                        None
                    }
                }
            },
            _ => None,
        }
    }
}

/// The input of `echo_one_of`.
#[derive(Clone, Debug, PartialEq, Eq)]
pub struct EchoOneOf {
    pub one_of: OneOf,
}

/// The mathematical value of an [`EchoOneOf`].
pub struct EchoOneOfView {
    pub one_of: OneOfView,
}

impl View for EchoOneOf {
    type V = EchoOneOfView;

    open spec fn view(&self) -> EchoOneOfView {
        EchoOneOfView { one_of: self.one_of@ }
    }
}

impl Shaped for EchoOneOf {
    open spec fn schema() -> SchemaView {
        SchemaView::Object(
            seq![FieldView { name: "one_of"@, schema: OneOf::schema(), required: true }],
        )
    }

    open spec fn typed(value: EchoOneOfView) -> PayloadView {
        PayloadView::Object(seq![MemberView { name: "one_of"@, value: OneOf::typed(value.one_of) }])
    }

    open spec fn untyped(value: PayloadView) -> Option<EchoOneOfView> {
        match value {
            PayloadView::Object(members) => {
                if members.len() == 1 && members[0].name == "one_of"@ {
                    match OneOf::untyped(members[0].value) {
                        Some(one_of) => Some(EchoOneOfView { one_of }),
                        None => None,
                    }
                } else {
                    None
                }
            },
            _ => None,
        }
    }

    proof fn lemma_typed(value: EchoOneOfView) {
        let schema = Self::schema();
        let typed = Self::typed(value);
        OneOf::lemma_typed(value.one_of);
        assert(well_formed(schema->Object_0[0].schema));
        assert(field_conforms(schema->Object_0[0], typed->Object_0[0]));
    }

    proof fn lemma_untyped(value: PayloadView) {
        match Self::untyped(value) {
            Some(read) => {
                OneOf::lemma_untyped(value->Object_0[0].value);
                assert(value->Object_0 =~= Self::typed(read)->Object_0);
            },
            None => {
                if conforms(Self::schema(), value) {
                    lemma_conforming_member(Self::schema()->Object_0, value->Object_0, 0);
                    OneOf::lemma_untyped(value->Object_0[0].value);
                    assert(false);
                }
            },
        }
    }

    fn describe() -> (schema: SchemaDescriptor) {
        let fields: Vec<Field> = vec![Field::required("one_of", OneOf::describe())];
        assert(view_fields(fields@) =~= Self::schema()->Object_0);
        SchemaDescriptor::Object(fields)
    }

    fn to_typed(&self) -> (value: Payload) {
        let members: Vec<Member> = vec![Member::new("one_of", self.one_of.to_typed())];
        assert(view_members(members@) =~= Self::typed(self@)->Object_0);
        Payload::Object(members)
    }

    fn from_typed(value: &Payload) -> (read: Option<Self>) {
        match value {
            Payload::Object(members) => {
                if members.len() == 1 {
                    assert(view_members(members@)[0] == members[0]@);
                    if same_text(members[0].name.as_str(), "one_of") {
                        match OneOf::from_typed(&members[0].value) {
                            Some(one_of) => Some(EchoOneOf { one_of }),
                            None => None,
                        }
                    } else {
                        None
                    }
                } else {
                    None
                }
            },
            _ => None,
        }
    }
}

/// The input of `echo_optional`.
#[derive(Clone, Debug, PartialEq, Eq)]
pub struct EchoOptional {
    pub message: String,
    pub optional_message: Option<String>,
}

/// The mathematical value of an [`EchoOptional`].
pub struct EchoOptionalView {
    pub message: Seq<char>,
    pub optional_message: Option<Seq<char>>,
}

impl View for EchoOptional {
    type V = EchoOptionalView;

    open spec fn view(&self) -> EchoOptionalView {
        EchoOptionalView {
            message: self.message@,
            optional_message: match self.optional_message {
                Some(text) => Some(text@),
                None => None,
            },
        }
    }
}

impl Shaped for EchoOptional {
    open spec fn schema() -> SchemaView {
        SchemaView::Object(
            seq![
                FieldView {
                    name: "message"@,
                    schema: SchemaView::Scalar(ScalarKind::Text),
                    required: true,
                },
                FieldView {
                    name: "optional_message"@,
                    schema: SchemaView::Scalar(ScalarKind::Text),
                    required: false,
                },
            ],
        )
    }

    open spec fn typed(value: EchoOptionalView) -> PayloadView {
        PayloadView::Object(
            seq![
                MemberView { name: "message"@, value: PayloadView::Text(value.message) },
                MemberView {
                    name: "optional_message"@,
                    value: match value.optional_message {
                        Some(text) => PayloadView::Text(text),
                        None => PayloadView::Null,
                    },
                },
            ],
        )
    }

    open spec fn untyped(value: PayloadView) -> Option<EchoOptionalView> {
        match value {
            PayloadView::Object(members) => {
                if members.len() == 2 && members[0].name == "message"@ && members[1].name
                    == "optional_message"@ {
                    match (members[0].value, members[1].value) {
                        (PayloadView::Text(message), PayloadView::Text(text)) => Some(
                            EchoOptionalView { message, optional_message: Some(text) },
                        ),
                        (PayloadView::Text(message), PayloadView::Null) => Some(
                            EchoOptionalView { message, optional_message: None },
                        ),
                        _ => None,
                    }
                } else {
                    None
                }
            },
            _ => None,
        }
    }

    proof fn lemma_typed(value: EchoOptionalView) {
        let schema = Self::schema();
        let typed = Self::typed(value);
        lemma_names_differ();
        assert(well_formed(schema->Object_0[0].schema));
        assert(well_formed(schema->Object_0[1].schema));
        assert(field_conforms(schema->Object_0[0], typed->Object_0[0]));
        assert(field_conforms(schema->Object_0[1], typed->Object_0[1]));
    }

    proof fn lemma_untyped(value: PayloadView) {
        match Self::untyped(value) {
            Some(read) => {
                assert(value->Object_0 =~= Self::typed(read)->Object_0);
            },
            None => {
                if conforms(Self::schema(), value) {
                    lemma_conforming_member(Self::schema()->Object_0, value->Object_0, 0);
                    lemma_conforming_member(Self::schema()->Object_0, value->Object_0, 1);
                    assert(false);
                }
            },
        }
    }

    fn describe() -> (schema: SchemaDescriptor) {
        let fields: Vec<Field> = vec![
            Field::required("message", SchemaDescriptor::text()),
            Field::optional("optional_message", SchemaDescriptor::text()),
        ];
        assert(view_fields(fields@) =~= Self::schema()->Object_0);
        SchemaDescriptor::Object(fields)
    }

    fn to_typed(&self) -> (value: Payload) {
        let optional = match &self.optional_message {
            Some(text) => Payload::Text(text.clone()),
            None => Payload::Null,
        };
        let members: Vec<Member> = vec![
            Member::new("message", Payload::Text(self.message.clone())),
            Member::new("optional_message", optional),
        ];
        assert(view_members(members@) =~= Self::typed(self@)->Object_0);
        Payload::Object(members)
    }

    fn from_typed(value: &Payload) -> (read: Option<Self>) {
        match value {
            Payload::Object(members) => {
                if members.len() == 2 {
                    assert(view_members(members@)[0] == members[0]@);
                    assert(view_members(members@)[1] == members[1]@);
                    if same_text(members[0].name.as_str(), "message") && same_text(
                        members[1].name.as_str(),
                        "optional_message",
                    ) {
                        match (&members[0].value, &members[1].value) {
                            (Payload::Text(message), Payload::Text(text)) => Some(
                                EchoOptional {
                                    message: message.clone(),
                                    optional_message: Some(text.clone()),
                                },
                            ),
                            (Payload::Text(message), Payload::Null) => Some(
                                EchoOptional { message: message.clone(), optional_message: None },
                            ),
                            _ => None,
                        }
                    } else {
                        None
                    }
                } else {
                    None
                }
            },
            _ => None,
        }
    }
}

} // verus!
