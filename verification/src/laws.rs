//! What holds of decoding and encoding, whatever the schema and the payload.

use crate::decode::{
    conforms, decode_field, decode_fields, decode_spec, field_conforms, lemma_first_error_stands,
    select_variant, variant_conforms, variant_match,
};
use crate::encode::{encode_field, encode_fields, encode_spec, encode_variant};
use crate::error::Reason;
use crate::error::DispatchErrorView;
use crate::payload::{find_member, lemma_find_from, lookup, MemberView, PayloadView};
use crate::schema::{
    distinct_field_names, distinct_variant_names, well_formed, FieldView, SchemaView, VariantView,
};
use vstd::prelude::*;

verus! {

/// What decoding returns is a typed value of the schema.
pub proof fn lemma_decoded_conforms(schema: SchemaView, payload: PayloadView)
    ensures
        decode_spec(schema, payload) matches Ok(value) ==> conforms(schema, value),
    decreases schema, 0nat,
{
    match schema {
        SchemaView::Scalar(_) => {},
        SchemaView::Object(fields) => {
            match payload {
                PayloadView::Object(members) => {
                    lemma_decoded_fields_conform(fields, members, fields.len());
                },
                _ => {},
            }
        },
        SchemaView::TaggedUnion(variants) => {
            match payload {
                PayloadView::Object(members) => {
                    lemma_selected_conforms(variants, members, 0);
                },
                _ => {},
            }
        },
    }
}

proof fn lemma_decoded_fields_conform(fields: Seq<FieldView>, members: Seq<MemberView>, n: nat)
    requires
        n <= fields.len(),
    ensures
        decode_fields(fields, members, n) matches Ok(decoded) ==> {
            &&& decoded.len() == n
            &&& forall|i: int| 0 <= i < n ==> field_conforms(#[trigger] fields[i], decoded[i])
        },
    decreases fields, n,
{
    if n > 0 {
        lemma_decoded_fields_conform(fields, members, (n - 1) as nat);
        lemma_decoded_field_conforms(fields[n - 1], members);
    }
}

proof fn lemma_decoded_field_conforms(field: FieldView, members: Seq<MemberView>)
    ensures
        decode_field(field, members) matches Ok(member) ==> field_conforms(field, member),
    decreases field, 0nat,
{
    match lookup(members, field.name) {
        Some(found) => {
            lemma_decoded_conforms(field.schema, found);
        },
        None => {},
    }
}

proof fn lemma_selected_conforms(variants: Seq<VariantView>, members: Seq<MemberView>, from: nat)
    ensures
        select_variant(variants, members, from) matches Ok(value) ==> conforms(
            SchemaView::TaggedUnion(variants),
            value,
        ),
    decreases variants, variants.len() - from,
{
    if from < variants.len() {
        let variant = variants[from as int];
        match variant_match(variant, members) {
            Some(value) => {
                let found = lookup(members, variant.name)->0;
                lemma_decoded_conforms(variant.schema, found);
                let schema = SchemaView::TaggedUnion(variants);
                assert(value->Object_0[0] == MemberView {
                    name: variant.name,
                    value: decode_spec(variant.schema, found)->Ok_0,
                });
                assert(variant_conforms(schema->TaggedUnion_0[from as int], value->Object_0[0]));
                assert(conforms(schema, value));
            },
            None => {
                lemma_selected_conforms(variants, members, from + 1);
            },
        }
    }
}

/// In a typed object of a schema whose field names are distinct, the value
/// under a field's name is that field's.
proof fn lemma_lookup_conforming(fields: Seq<FieldView>, members: Seq<MemberView>, i: int)
    requires
        distinct_field_names(fields),
        members.len() == fields.len(),
        forall|k: int| 0 <= k < fields.len() ==> (#[trigger] members[k]).name == fields[k].name,
        0 <= i < fields.len(),
    ensures
        lookup(members, fields[i].name) == Some(members[i].value),
{
    let name = fields[i].name;
    lemma_find_from(members, name, 0);
    match find_member(members, name) {
        Some(k) => {
            assert(members[k].name == fields[k].name);
            assert(members[i].name == name);
            if k < i {
                assert(fields[k].name != fields[i].name);
            }
        },
        None => {
            assert(members[i].name == name);
        },
    }
}

/// A typed value decodes to itself.
pub proof fn lemma_conforming_decodes(schema: SchemaView, value: PayloadView)
    requires
        well_formed(schema),
        conforms(schema, value),
    ensures
        decode_spec(schema, value) == Ok::<PayloadView, DispatchErrorView>(value),
    decreases schema, 0nat,
{
    match schema {
        SchemaView::Scalar(_) => {},
        SchemaView::Object(fields) => {
            let members = value->Object_0;
            lemma_conforming_fields_decode(fields, members, fields.len());
            assert(members.subrange(0, fields.len() as int) =~= members);
        },
        SchemaView::TaggedUnion(variants) => {
            let members = value->Object_0;
            let j = choose|j: int|
                0 <= j < variants.len() && variant_conforms(#[trigger] variants[j], members[0]);
            lemma_conforming_decodes(variants[j].schema, members[0].value);
            lemma_find_from(members, variants[j].name, 0);
            assert(lookup(members, variants[j].name) == Some(members[0].value));
            assert(seq![MemberView { name: variants[j].name, value: members[0].value }]
                =~= members);
            assert(variant_match(variants[j], members) == Some(value));
            assert forall|i: int| 0 <= i < j implies variant_match(
                #[trigger] variants[i],
                members,
            ) is None by {
                lemma_find_from(members, variants[i].name, 0);
                assert(variants[i].name != variants[j].name);
            }
            lemma_first_match_selected(variants, members, j, 0);
        },
    }
}

proof fn lemma_conforming_fields_decode(fields: Seq<FieldView>, members: Seq<MemberView>, n: nat)
    requires
        well_formed(SchemaView::Object(fields)),
        conforms(SchemaView::Object(fields), PayloadView::Object(members)),
        n <= fields.len(),
    ensures
        decode_fields(fields, members, n) == Ok::<Seq<MemberView>, DispatchErrorView>(
            members.subrange(0, n as int),
        ),
    decreases fields, n,
{
    if n == 0 {
        assert(members.subrange(0, 0) =~= Seq::<MemberView>::empty());
    } else {
        lemma_conforming_fields_decode(fields, members, (n - 1) as nat);
        let field = fields[n - 1];
        let member = members[n - 1];
        assert(field_conforms(field, member));
        assert forall|k: int| 0 <= k < fields.len() implies (#[trigger] members[k]).name
            == fields[k].name by {
            assert(field_conforms(fields[k], members[k]));
        }
        lemma_lookup_conforming(fields, members, n - 1);
        if !(!field.required && member.value is Null) {
            lemma_conforming_decodes(field.schema, member.value);
        }
        assert(decode_field(field, members) == Ok::<MemberView, DispatchErrorView>(member));
        assert(members.subrange(0, n - 1).push(member) =~= members.subrange(0, n as int));
    }
}

/// Variants that do not match are passed over.
pub proof fn lemma_first_match_selected(
    variants: Seq<VariantView>,
    members: Seq<MemberView>,
    i: int,
    from: nat,
)
    requires
        from <= i < variants.len(),
        variant_match(variants[i], members) is Some,
        forall|j: int| from <= j < i ==> variant_match(#[trigger] variants[j], members) is None,
    ensures
        select_variant(variants, members, from) == Ok::<PayloadView, DispatchErrorView>(
            variant_match(variants[i], members)->0,
        ),
    decreases i - from,
{
    if from < i {
        assert(variant_match(variants[from as int], members) is None);
        lemma_first_match_selected(variants, members, i, from + 1);
    }
}

/// Putting a member at the end changes what is found under a name only where
/// nothing was found before and the new member has that name.
pub proof fn lemma_lookup_push(members: Seq<MemberView>, member: MemberView, name: Seq<char>)
    ensures
        lookup(members.push(member), name) == match lookup(members, name) {
            Some(value) => Some(value),
            None => if member.name == name {
                Some(member.value)
            } else {
                None
            },
        },
{
    let longer = members.push(member);
    lemma_find_from(members, name, 0);
    lemma_find_from(longer, name, 0);
    match find_member(members, name) {
        Some(k) => {
            assert(longer[k] == members[k]);
            match find_member(longer, name) {
                Some(k2) => {
                    if k2 < k {
                        assert(longer[k2] == members[k2]);
                        assert(members[k2].name != name);
                    }
                    if k < k2 {
                        assert(longer[k].name != name);
                    }
                },
                None => {
                    assert(longer[k].name != name);
                },
            }
        },
        None => {
            match find_member(longer, name) {
                Some(k2) => {
                    if k2 < members.len() {
                        assert(longer[k2] == members[k2]);
                        assert(members[k2].name != name);
                    }
                },
                None => {
                    assert(longer[members.len() as int] == member);
                },
            }
        },
    }
}

/// The value that encoding writes for a field, if it writes one.
pub open spec fn written_value(field: FieldView, members: Seq<MemberView>) -> Option<PayloadView> {
    match encode_field(field, members) {
        Some(member) => Some(member.value),
        None => None,
    }
}

/// What stands under a field's name in an encoded object is what encoding
/// wrote for that field.
proof fn lemma_lookup_encoded(fields: Seq<FieldView>, members: Seq<MemberView>, n: nat, i: int)
    requires
        distinct_field_names(fields),
        n <= fields.len(),
        0 <= i < fields.len(),
    ensures
        lookup(encode_fields(fields, members, n), fields[i].name) == if i < n {
            written_value(fields[i], members)
        } else {
            None
        },
    decreases n,
{
    if n > 0 {
        lemma_lookup_encoded(fields, members, (n - 1) as nat, i);
        let done = encode_fields(fields, members, (n - 1) as nat);
        if i < n - 1 {
            assert(fields[i].name != fields[n - 1].name);
        }
        if n - 1 < i {
            assert(fields[n - 1].name != fields[i].name);
        }
        match encode_field(fields[n - 1], members) {
            Some(member) => {
                lemma_lookup_push(done, member, fields[i].name);
            },
            None => {},
        }
    }
}

/// The names of a typed object are the declared names, in declared order.
proof fn lemma_conforming_names(fields: Seq<FieldView>, members: Seq<MemberView>)
    requires
        conforms(SchemaView::Object(fields), PayloadView::Object(members)),
    ensures
        members.len() == fields.len(),
        forall|k: int| 0 <= k < fields.len() ==> (#[trigger] members[k]).name == fields[k].name,
{
    assert forall|k: int| 0 <= k < fields.len() implies (#[trigger] members[k]).name
        == fields[k].name by {
        assert(field_conforms(fields[k], members[k]));
    }
}

/// Round trip: a typed value that is encoded along a schema and decoded
/// against the same schema comes back as it was.
pub proof fn lemma_round_trip(schema: SchemaView, value: PayloadView)
    requires
        well_formed(schema),
        conforms(schema, value),
    ensures
        decode_spec(schema, encode_spec(schema, value)) == Ok::<PayloadView, DispatchErrorView>(
            value,
        ),
    decreases schema, 0nat,
{
    match schema {
        SchemaView::Scalar(_) => {},
        SchemaView::Object(fields) => {
            let members = value->Object_0;
            lemma_round_trip_fields(fields, members, fields.len());
            assert(members.subrange(0, fields.len() as int) =~= members);
        },
        SchemaView::TaggedUnion(variants) => {
            let members = value->Object_0;
            let member = members[0];
            let j = choose|j: int|
                0 <= j < variants.len() && variant_conforms(#[trigger] variants[j], members[0]);
            lemma_encode_variant_picks(variants, member, j, 0);
            lemma_round_trip(variants[j].schema, member.value);
            let written = seq![encode_variant(variants, member, 0)];
            assert(encode_spec(schema, value) == PayloadView::Object(written));
            lemma_find_from(written, variants[j].name, 0);
            assert(written[0].name == variants[j].name);
            assert(lookup(written, variants[j].name) == Some(written[0].value));
            assert(seq![MemberView { name: variants[j].name, value: member.value }] =~= members);
            assert(variant_match(variants[j], written) == Some(value));
            assert forall|i: int| 0 <= i < j implies variant_match(
                #[trigger] variants[i],
                written,
            ) is None by {
                lemma_find_from(written, variants[i].name, 0);
                assert(variants[i].name != variants[j].name);
                assert(written[0].name != variants[i].name);
            }
            lemma_first_match_selected(variants, written, j, 0);
        },
    }
}

proof fn lemma_encode_variant_picks(
    variants: Seq<VariantView>,
    member: MemberView,
    j: int,
    from: nat,
)
    requires
        distinct_variant_names(variants),
        from <= j < variants.len(),
        variants[j].name == member.name,
    ensures
        encode_variant(variants, member, from) == (MemberView {
            name: member.name,
            value: encode_spec(variants[j].schema, member.value),
        }),
    decreases j - from,
{
    if from < j {
        assert(variants[from as int].name != variants[j].name);
        lemma_encode_variant_picks(variants, member, j, from + 1);
    }
}

proof fn lemma_round_trip_fields(fields: Seq<FieldView>, members: Seq<MemberView>, n: nat)
    requires
        well_formed(SchemaView::Object(fields)),
        conforms(SchemaView::Object(fields), PayloadView::Object(members)),
        n <= fields.len(),
    ensures
        decode_fields(fields, encode_fields(fields, members, fields.len()), n) == Ok::<
            Seq<MemberView>,
            DispatchErrorView,
        >(members.subrange(0, n as int)),
    decreases fields, n,
{
    if n == 0 {
        assert(members.subrange(0, 0) =~= Seq::<MemberView>::empty());
    } else {
        lemma_round_trip_fields(fields, members, (n - 1) as nat);
        let field = fields[n - 1];
        let member = members[n - 1];
        let written = encode_fields(fields, members, fields.len());
        lemma_conforming_names(fields, members);
        assert(field_conforms(field, member));
        lemma_lookup_conforming(fields, members, n - 1);
        lemma_lookup_encoded(fields, members, fields.len(), n - 1);
        if !(!field.required && member.value is Null) {
            lemma_round_trip(field.schema, member.value);
            assert(!(encode_spec(field.schema, member.value) is Null));
        }
        assert(decode_field(field, written) == Ok::<MemberView, DispatchErrorView>(member));
        assert(members.subrange(0, n - 1).push(member) =~= members.subrange(0, n as int));
    }
}

/// Whether two payloads hold the same under every name that the schema
/// declares, at every level. What else they hold, and in what order, is not
/// asked.
pub open spec fn agree(schema: SchemaView, a: PayloadView, b: PayloadView) -> bool
    decreases schema, 0nat,
{
    a == b || match schema {
        SchemaView::Scalar(_) => false,
        SchemaView::Object(fields) => {
            &&& a is Object
            &&& b is Object
            &&& forall|i: int|
                0 <= i < fields.len() ==> field_agrees(
                    #[trigger] fields[i],
                    a->Object_0,
                    b->Object_0,
                )
        },
        SchemaView::TaggedUnion(variants) => {
            &&& a is Object
            &&& b is Object
            &&& forall|j: int|
                0 <= j < variants.len() ==> variant_agrees(
                    #[trigger] variants[j],
                    a->Object_0,
                    b->Object_0,
                )
        },
    }
}

/// Whether two objects hold the same under the name of `field`.
pub open spec fn field_agrees(field: FieldView, a: Seq<MemberView>, b: Seq<MemberView>) -> bool
    decreases field, 0nat,
{
    found_agree(field.schema, lookup(a, field.name), lookup(b, field.name))
}

/// Whether two objects hold the same under the name of `variant`.
pub open spec fn variant_agrees(variant: VariantView, a: Seq<MemberView>, b: Seq<MemberView>)
    -> bool
    decreases variant, 0nat,
{
    found_agree(variant.schema, lookup(a, variant.name), lookup(b, variant.name))
}

/// Both absent, or both there and in agreement.
pub open spec fn found_agree(schema: SchemaView, a: Option<PayloadView>, b: Option<PayloadView>)
    -> bool
    decreases schema, 1nat,
{
    match (a, b) {
        (None, None) => true,
        (Some(x), Some(y)) => agree(schema, x, y),
        _ => false,
    }
}

/// Members that the schema does not declare are ignored: two payloads that
/// agree on what the schema declares decode alike.
pub proof fn lemma_agreeing_decode_alike(schema: SchemaView, a: PayloadView, b: PayloadView)
    requires
        agree(schema, a, b),
    ensures
        decode_spec(schema, a) == decode_spec(schema, b),
    decreases schema, 0nat,
{
    if a != b {
        match schema {
            SchemaView::Scalar(_) => {},
            SchemaView::Object(fields) => {
                lemma_agreeing_fields(fields, a->Object_0, b->Object_0, fields.len());
            },
            SchemaView::TaggedUnion(variants) => {
                lemma_agreeing_variants(variants, a->Object_0, b->Object_0, 0);
            },
        }
    }
}

proof fn lemma_agreeing_found(schema: SchemaView, a: Option<PayloadView>, b: Option<PayloadView>)
    requires
        found_agree(schema, a, b),
    ensures
        a is Some <==> b is Some,
        a is Some ==> (a->0 is Null <==> b->0 is Null),
        a is Some ==> decode_spec(schema, a->0) == decode_spec(schema, b->0),
    decreases schema, 1nat,
{
    if a is Some && b is Some {
        lemma_agreeing_decode_alike(schema, a->0, b->0);
    }
}

proof fn lemma_agreeing_fields(
    fields: Seq<FieldView>,
    a: Seq<MemberView>,
    b: Seq<MemberView>,
    n: nat,
)
    requires
        forall|i: int| 0 <= i < fields.len() ==> field_agrees(#[trigger] fields[i], a, b),
        n <= fields.len(),
    ensures
        decode_fields(fields, a, n) == decode_fields(fields, b, n),
    decreases fields, n,
{
    if n > 0 {
        lemma_agreeing_fields(fields, a, b, (n - 1) as nat);
        let field = fields[n - 1];
        assert(field_agrees(field, a, b));
        lemma_agreeing_found(field.schema, lookup(a, field.name), lookup(b, field.name));
        assert(decode_field(field, a) == decode_field(field, b));
    }
}

proof fn lemma_agreeing_variants(
    variants: Seq<VariantView>,
    a: Seq<MemberView>,
    b: Seq<MemberView>,
    from: nat,
)
    requires
        forall|j: int| 0 <= j < variants.len() ==> variant_agrees(#[trigger] variants[j], a, b),
    ensures
        select_variant(variants, a, from) == select_variant(variants, b, from),
    decreases variants, variants.len() - from,
{
    if from < variants.len() {
        let variant = variants[from as int];
        assert(variant_agrees(variant, a, b));
        lemma_agreeing_found(variant.schema, lookup(a, variant.name), lookup(b, variant.name));
        assert(variant_match(variant, a) == variant_match(variant, b));
        lemma_agreeing_variants(variants, a, b, from + 1);
    }
}

/// A member whose name no field declares changes nothing, wherever it is
/// added to the object.
pub proof fn lemma_undeclared_member_ignored(
    fields: Seq<FieldView>,
    members: Seq<MemberView>,
    extra: MemberView,
    at: int,
)
    requires
        0 <= at <= members.len(),
        forall|i: int| 0 <= i < fields.len() ==> (#[trigger] fields[i]).name != extra.name,
    ensures
        decode_spec(SchemaView::Object(fields), PayloadView::Object(members.insert(at, extra)))
            == decode_spec(SchemaView::Object(fields), PayloadView::Object(members)),
{
    let more = members.insert(at, extra);
    let schema = SchemaView::Object(fields);
    assert forall|i: int| 0 <= i < fields.len() implies field_agrees(
        #[trigger] schema->Object_0[i],
        more,
        members,
    ) by {
        lemma_lookup_insert(members, extra, at, fields[i].name);
    }
    assert(agree(schema, PayloadView::Object(more), PayloadView::Object(members)));
    lemma_agreeing_decode_alike(schema, PayloadView::Object(more), PayloadView::Object(members));
}

/// A member of another name, put in anywhere, does not change what is found
/// under `name`.
pub proof fn lemma_lookup_insert(
    members: Seq<MemberView>,
    extra: MemberView,
    at: int,
    name: Seq<char>,
)
    requires
        0 <= at <= members.len(),
        extra.name != name,
    ensures
        lookup(members.insert(at, extra), name) == lookup(members, name),
{
    let more = members.insert(at, extra);
    lemma_find_from(members, name, 0);
    lemma_find_from(more, name, 0);
    assert(more[at] == extra);
    match find_member(members, name) {
        Some(k) => {
            let moved = if k < at {
                k
            } else {
                k + 1
            };
            assert(more[moved] == members[k]);
            match find_member(more, name) {
                Some(k2) => {
                    if k2 < moved {
                        if k2 < at {
                            assert(more[k2] == members[k2]);
                            assert(members[k2].name != name);
                        } else {
                            assert(more[k2] == members[k2 - 1]);
                            assert(members[k2 - 1].name != name);
                        }
                    }
                    if moved < k2 {
                        assert(more[moved].name != name);
                    }
                },
                None => {
                    assert(more[moved].name != name);
                },
            }
        },
        None => {
            match find_member(more, name) {
                Some(k2) => {
                    if k2 < at {
                        assert(more[k2] == members[k2]);
                        assert(members[k2].name != name);
                    } else {
                        assert(more[k2] == members[k2 - 1]);
                        assert(members[k2 - 1].name != name);
                    }
                },
                None => {},
            }
        },
    }
}

/// Whether `payload` lacks the required field that `path` names: `path` leads
/// through objects that are there, field by declared field, to a required
/// field that is not, and every field declared before one on the path decodes.
pub open spec fn missing_at(schema: SchemaView, payload: PayloadView, path: Seq<Seq<char>>) -> bool
    decreases path.len(), 1nat,
{
    match schema {
        SchemaView::Object(fields) => {
            match payload {
                PayloadView::Object(members) => {
                    &&& path.len() > 0
                    &&& exists|i: int|
                        0 <= i < fields.len() && missing_under(
                            #[trigger] fields[i],
                            fields,
                            members,
                            path,
                            i,
                        )
                },
                _ => false,
            }
        },
        _ => false,
    }
}

/// Whether `field`, which is field `i` of `fields`, is the first step of
/// `path` to a missing required field.
pub open spec fn missing_under(
    field: FieldView,
    fields: Seq<FieldView>,
    members: Seq<MemberView>,
    path: Seq<Seq<char>>,
    i: int,
) -> bool
    decreases path.len(), 0nat,
{
    &&& path.len() > 0
    &&& field.name == path[0]
    &&& decode_fields(fields, members, i as nat) is Ok
    &&& if path.len() == 1 {
        field.required && lookup(members, path[0]) is None
    } else {
        match lookup(members, path[0]) {
            Some(found) => {
                &&& !(!field.required && found is Null)
                &&& missing_at(field.schema, found, path.drop_first())
            },
            None => false,
        }
    }
}

/// A payload that lacks a required field is refused, and the error names the
/// path of that field.
pub proof fn lemma_missing_field_named(
    schema: SchemaView,
    payload: PayloadView,
    path: Seq<Seq<char>>,
)
    requires
        missing_at(schema, payload, path),
    ensures
        decode_spec(schema, payload) == Err::<PayloadView, DispatchErrorView>(
            DispatchErrorView::InvalidParameters { path, reason: Reason::MissingField },
        ),
    decreases path.len(),
{
    let fields = schema->Object_0;
    let members = payload->Object_0;
    let i = choose|i: int|
        0 <= i < fields.len() && missing_under(#[trigger] fields[i], fields, members, path, i);
    let field = fields[i];
    if path.len() == 1 {
        assert(seq![field.name] =~= path);
    } else {
        let found = lookup(members, path[0])->0;
        lemma_missing_field_named(field.schema, found, path.drop_first());
        assert(seq![field.name] + path.drop_first() =~= path);
    }
    let e = DispatchErrorView::InvalidParameters { path, reason: Reason::MissingField };
    assert(decode_field(field, members) == Err::<MemberView, DispatchErrorView>(e));
    assert(decode_fields(fields, members, (i + 1) as nat) == Err::<
        Seq<MemberView>,
        DispatchErrorView,
    >(e));
    lemma_first_error_stands(fields, members, (i + 1) as nat, fields.len());
}

/// Selection is decided by declaration order: where a variant matches, the
/// variant that is selected is the first one that matches, which is declared
/// no later.
pub proof fn lemma_first_declared_wins(
    variants: Seq<VariantView>,
    members: Seq<MemberView>,
    i: int,
) -> (first: int)
    requires
        0 <= i < variants.len(),
        variant_match(variants[i], members) is Some,
    ensures
        0 <= first <= i,
        variant_match(variants[first], members) is Some,
        forall|j: int| 0 <= j < first ==> variant_match(#[trigger] variants[j], members) is None,
        select_variant(variants, members, 0) == Ok::<PayloadView, DispatchErrorView>(
            variant_match(variants[first], members)->0,
        ),
{
    let first = first_match(variants, members, i, 0);
    lemma_first_match_selected(variants, members, first, 0);
    first
}

proof fn first_match(
    variants: Seq<VariantView>,
    members: Seq<MemberView>,
    i: int,
    from: int,
) -> (first: int)
    requires
        0 <= from <= i < variants.len(),
        variant_match(variants[i], members) is Some,
        forall|j: int| 0 <= j < from ==> variant_match(#[trigger] variants[j], members) is None,
    ensures
        from <= first <= i,
        variant_match(variants[first], members) is Some,
        forall|j: int| 0 <= j < first ==> variant_match(#[trigger] variants[j], members) is None,
    decreases i - from,
{
    if variant_match(variants[from], members) is Some {
        from
    } else {
        first_match(variants, members, i, from + 1)
    }
}

} // verus!
