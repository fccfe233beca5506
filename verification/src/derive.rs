//! What `#[derive(XcqTypeInfo)]` decides about the item it is given: which
//! items it accepts, and the shape of the description that the generated
//! `type_info` builds (names as bytes; each field's type is described by
//! that type's own `type_info`).
use vstd::prelude::*;
use crate::types::{
    lemma_view_fields, view_fields, view_variants, EnumType, Field, FieldView,
    StructType, TypeView, Variant, XcqType,
};

verus! {

/// The fields of a struct or of an enum variant.
pub enum FieldsModel {
    /// Named fields, with their names.
    Named(Vec<String>),
    /// This many unnamed fields.
    Unnamed(usize),
    /// No fields.
    Unit,
}

/// A variant of an enum.
pub struct VariantModel {
    pub ident: String,
    pub fields: FieldsModel,
}

/// What the item declares.
pub enum DataModel {
    Struct(FieldsModel),
    Enum(Vec<VariantModel>),
    Union,
}

/// The item that the derive is applied to.
pub struct DeriveInputModel {
    pub ident: String,
    /// The item carries attributes.
    pub has_attrs: bool,
    /// The item has type parameters.
    pub has_type_params: bool,
    pub data: DataModel,
}

/// Why the derive refused an item.
#[derive(Debug, PartialEq, Eq, Structural)]
pub enum DeriveError {
    UnexpectedAttributes,
    GenericsNotSupported,
    UnionsNotSupported,
}

impl DeriveError {
    /// The message that the compiler shows for the error.
    pub fn message(&self) -> (r: &'static str)
        ensures
            self is UnexpectedAttributes ==> r@ == "unexpected attributes"@,
            self is GenericsNotSupported ==> r@ == "generics are not supported"@,
            self is UnionsNotSupported ==> r@ == "unions are not supported"@,
    {
        match self {
            DeriveError::UnexpectedAttributes => "unexpected attributes",
            DeriveError::GenericsNotSupported => "generics are not supported",
            DeriveError::UnionsNotSupported => "unions are not supported",
        }
    }
}

/// The field names of a description: a named field's name as bytes, an
/// unnamed field's empty; `Nothing` for a unit struct or variant, whose
/// description the generator writes with an empty list of fields.
pub enum FieldsPlan {
    Fields(Vec<Vec<u8>>),
    Nothing,
}

/// The shape of the description that the derived `type_info` builds.
pub enum TypeInfoPlan {
    /// A struct description with this name.
    Struct { ident: Vec<u8>, fields: FieldsPlan },
    /// An enum description with this name and these variants.
    Enum { ident: Vec<u8>, variants: Vec<(Vec<u8>, FieldsPlan)> },
}

/// The field names of a description, as byte sequences.
pub open spec fn fields_shape(f: FieldsModel) -> Option<Seq<Seq<u8>>> {
    match f {
        FieldsModel::Named(names) => Some(
            names@.map_values(|n: String| vstd::utf8::encode_utf8(n@)),
        ),
        FieldsModel::Unnamed(n) => Some(Seq::new(n as nat, |i: int| Seq::<u8>::empty())),
        FieldsModel::Unit => None,
    }
}

/// The mathematical value of a fields plan.
pub open spec fn fields_plan_view(p: FieldsPlan) -> Option<Seq<Seq<u8>>> {
    match p {
        FieldsPlan::Fields(v) => Some(v@.map_values(|b: Vec<u8>| b@)),
        FieldsPlan::Nothing => None,
    }
}

/// The description that the derive plans for an item: refused where the
/// item carries attributes, has type parameters or is a union, checked in
/// that order.
pub open spec fn derive_plan_ok(input: DeriveInputModel, plan: TypeInfoPlan) -> bool {
    match input.data {
        DataModel::Struct(f) => plan matches TypeInfoPlan::Struct { ident, fields } && ident@
            == vstd::utf8::encode_utf8(input.ident@) && fields_plan_view(fields) == fields_shape(
            f,
        ),
        DataModel::Enum(vs) => plan matches TypeInfoPlan::Enum { ident, variants } && ident@
            == vstd::utf8::encode_utf8(input.ident@) && variants@.len() == vs@.len() && forall|
            k: int,
        |
            0 <= k < vs@.len() ==> #[trigger] variants@[k].0@ == vstd::utf8::encode_utf8(
                vs@[k].ident@,
            ) && fields_plan_view(variants@[k].1) == fields_shape(vs@[k].fields),
        DataModel::Union => false,
    }
}

/// The bytes of a string.
fn string_bytes(s: &String) -> (r: Vec<u8>)
    ensures
        r@ == vstd::utf8::encode_utf8(s@),
{
    let b = s.as_str().as_bytes();
    let mut r: Vec<u8> = Vec::new();
    let mut i: usize = 0;
    while i < b.len()
        invariant
            0 <= i <= b@.len(),
            r@ == b@.subrange(0, i as int),
        decreases b@.len() - i,
    {
        r.push(b[i]);
        i = i + 1;
        assert(r@ =~= b@.subrange(0, i as int));
    }
    assert(b@.subrange(0, b@.len() as int) =~= b@);
    r
}

/// The field names of a description.
fn plan_fields(f: &FieldsModel) -> (r: FieldsPlan)
    ensures
        fields_plan_view(r) == fields_shape(*f),
{
    match f {
        FieldsModel::Unit => FieldsPlan::Nothing,
        FieldsModel::Named(names) => {
            let mut v: Vec<Vec<u8>> = Vec::new();
            let mut i: usize = 0;
            while i < names.len()
                invariant
                    0 <= i <= names@.len(),
                    v@.map_values(|b: Vec<u8>| b@) == names@.subrange(0, i as int).map_values(
                        |n: String| vstd::utf8::encode_utf8(n@),
                    ),
                decreases names@.len() - i,
            {
                let ghost prev = v@;
                let b = string_bytes(&names[i]);
                let ghost bv = b@;
                v.push(b);
                assert(v@.map_values(|b: Vec<u8>| b@) =~= prev.map_values(|b: Vec<u8>| b@).push(bv));
                assert(names@.subrange(0, i + 1).map_values(|n: String| vstd::utf8::encode_utf8(n@))
                    =~= names@.subrange(0, i as int).map_values(
                    |n: String| vstd::utf8::encode_utf8(n@),
                ).push(vstd::utf8::encode_utf8(names@[i as int]@)));
                i = i + 1;
            }
            assert(names@.subrange(0, names@.len() as int) =~= names@);
            FieldsPlan::Fields(v)
        },
        FieldsModel::Unnamed(n) => {
            let mut v: Vec<Vec<u8>> = Vec::new();
            let mut i: usize = 0;
            while i < *n
                invariant
                    0 <= i <= *n,
                    v@.map_values(|b: Vec<u8>| b@) == Seq::new(i as nat, |k: int| Seq::<u8>::empty()),
                decreases *n - i,
            {
                let ghost prev = v@;
                let e: Vec<u8> = Vec::new();
                v.push(e);
                assert(v@.map_values(|b: Vec<u8>| b@) =~= prev.map_values(|b: Vec<u8>| b@).push(Seq::<u8>::empty()));
                assert(v@.map_values(|b: Vec<u8>| b@) =~= Seq::new((i + 1) as nat, |k: int| Seq::<u8>::empty()));
                i = i + 1;
            }
            FieldsPlan::Fields(v)
        },
    }
}

/// What `#[derive(XcqTypeInfo)]` generates for an item: a struct or an
/// enum description named after the item, whose fields are named after the
/// item's fields (unnamed fields get empty names). An item with attributes,
/// with type parameters, or a union is refused, in that order.
pub fn plan_type_info(input: &DeriveInputModel) -> (r: Result<TypeInfoPlan, DeriveError>)
    ensures
        input.has_attrs ==> r == Err::<TypeInfoPlan, DeriveError>(DeriveError::UnexpectedAttributes),
        !input.has_attrs && input.has_type_params ==> r == Err::<TypeInfoPlan, DeriveError>(
            DeriveError::GenericsNotSupported,
        ),
        !input.has_attrs && !input.has_type_params && input.data is Union ==> r == Err::<
            TypeInfoPlan,
            DeriveError,
        >(DeriveError::UnionsNotSupported),
        !input.has_attrs && !input.has_type_params && !(input.data is Union) ==> (r matches Ok(p)
            && derive_plan_ok(*input, p)),
{
    if input.has_attrs {
        return Err(DeriveError::UnexpectedAttributes);
    }
    if input.has_type_params {
        return Err(DeriveError::GenericsNotSupported);
    }
    match &input.data {
        DataModel::Union => Err(DeriveError::UnionsNotSupported),
        DataModel::Struct(f) => Ok(
            TypeInfoPlan::Struct { ident: string_bytes(&input.ident), fields: plan_fields(f) },
        ),
        DataModel::Enum(vs) => {
            let mut variants: Vec<(Vec<u8>, FieldsPlan)> = Vec::new();
            let mut i: usize = 0;
            while i < vs.len()
                invariant
                    0 <= i <= vs@.len(),
                    variants@.len() == i,
                    forall|k: int|
                        0 <= k < i ==> #[trigger] variants@[k].0@ == vstd::utf8::encode_utf8(
                            vs@[k].ident@,
                        ) && fields_plan_view(variants@[k].1) == fields_shape(vs@[k].fields),
                decreases vs@.len() - i,
            {
                variants.push((string_bytes(&vs[i].ident), plan_fields(&vs[i].fields)));
                i = i + 1;
            }
            Ok(TypeInfoPlan::Enum { ident: string_bytes(&input.ident), variants })
        },
    }
}

/// The fields of a description: each name that the plan gives, with the
/// description of the field's type, in order.
pub open spec fn described_fields(names: Seq<Vec<u8>>, tys: Seq<XcqType>) -> Seq<FieldView> {
    Seq::new(names.len(), |i: int| FieldView { ident: names[i]@, ty: tys[i]@ })
}

/// A copy of a byte string.
fn copy_bytes(b: &Vec<u8>) -> (r: Vec<u8>)
    ensures
        r@ == b@,
{
    let mut r: Vec<u8> = Vec::new();
    let mut i: usize = 0;
    while i < b.len()
        invariant
            0 <= i <= b@.len(),
            r@ == b@.subrange(0, i as int),
        decreases b@.len() - i,
    {
        r.push(b[i]);
        i = i + 1;
        assert(r@ =~= b@.subrange(0, i as int));
    }
    assert(b@.subrange(0, b@.len() as int) =~= b@);
    r
}

/// The fields that the generated `type_info` builds: the field names that
/// the plan gives (none for a unit item), each with the description of the
/// field's type.
pub fn describe_fields(names: &Vec<Vec<u8>>, tys: &Vec<XcqType>) -> (r: Vec<Field>)
    requires
        names@.len() == tys@.len(),
    ensures
        view_fields(r@) == described_fields(names@, tys@),
{
    let mut r: Vec<Field> = Vec::new();
    let mut i: usize = 0;
    while i < names.len()
        invariant
            0 <= i <= names@.len(),
            names@.len() == tys@.len(),
            r@.len() == i,
            forall|k: int| 0 <= k < i ==> #[trigger] r@[k]@ == (FieldView { ident: names@[k]@, ty: tys@[k]@ }),
        decreases names@.len() - i,
    {
        let f = Field { ident: copy_bytes(&names[i]), ty: tys[i].deep_copy() };
        r.push(f);
        i = i + 1;
    }
    proof {
        lemma_view_fields(r@);
        assert(view_fields(r@) =~= described_fields(names@, tys@));
    }
    r
}

/// The description that the generated `type_info` of a struct builds: the
/// struct's name and its fields, each name with its type's description.
pub fn describe_struct(ident: &Vec<u8>, names: &Vec<Vec<u8>>, tys: &Vec<XcqType>) -> (r: XcqType)
    requires
        names@.len() == tys@.len(),
    ensures
        r@ == (TypeView::Struct { ident: ident@, fields: described_fields(names@, tys@) }),
{
    XcqType::Struct(StructType { ident: copy_bytes(ident), fields: describe_fields(names, tys) })
}

/// A variant of the description that the generated `type_info` of an enum
/// builds: the variant's name and its fields, each name with its type's
/// description.
pub fn describe_variant(ident: &Vec<u8>, names: &Vec<Vec<u8>>, tys: &Vec<XcqType>) -> (r: Variant)
    requires
        names@.len() == tys@.len(),
    ensures
        view_fields(r.fields@) == described_fields(names@, tys@),
        r.ident@ == ident@,
{
    Variant { ident: copy_bytes(ident), fields: describe_fields(names, tys) }
}

/// The description that the generated `type_info` of an enum builds: the
/// enum's name and its variants, in order.
pub fn describe_enum(ident: &Vec<u8>, variants: Vec<Variant>) -> (r: XcqType)
    ensures
        r@ == (TypeView::Enum { ident: ident@, variants: view_variants(variants@) }),
{
    XcqType::Enum(EnumType { ident: copy_bytes(ident), variants })
}

} // verus!
