//! Type descriptions of Rust types, and a handle that carries one at run time.
use vstd::prelude::*;
use crate::types::{
    lemma_view_fields, lemma_view_types, lemma_view_variants, type_encoding, type_wf, view_fields, view_types,
    view_variants, EnumType, Field, FieldView, PrimitiveType, StructType, TypeView, Variant,
    VariantView, XcqType,
};

verus! {

/// A type that can describe itself.
pub trait XcqTypeInfo {
    /// The type that identifies this one: itself for most types, the
    /// pointed-to type for references and smart pointers.
    type Identity: ?Sized + 'static;

    /// The description of the type.
    spec fn spec_type_info() -> TypeView;

    /// Returns the description of the type.
    fn type_info() -> (r: XcqType)
        ensures
            r@ == Self::spec_type_info(),
    ;
}

/// A type that can describe itself and lives for the whole program.
pub trait XcqStaticTypeInfo: XcqTypeInfo {}

/// The description of a primitive type.
pub open spec fn primitive(p: PrimitiveType) -> TypeView {
    TypeView::Primitive(p)
}

/// The description of a sequence of elements of the given type.
pub open spec fn sequence(elem: TypeView) -> TypeView {
    TypeView::Sequence(Box::new(elem))
}

/// A field without a name.
pub open spec fn unnamed(ty: TypeView) -> FieldView {
    FieldView { ident: Seq::empty(), ty }
}

pub open spec fn option_ident() -> Seq<u8> {
    seq![79u8, 112u8, 116u8, 105u8, 111u8, 110u8]
}

pub open spec fn none_ident() -> Seq<u8> {
    seq![78u8, 111u8, 110u8, 101u8]
}

pub open spec fn some_ident() -> Seq<u8> {
    seq![83u8, 111u8, 109u8, 101u8]
}

pub open spec fn result_ident() -> Seq<u8> {
    seq![82u8, 101u8, 115u8, 117u8, 108u8, 116u8]
}

pub open spec fn ok_ident() -> Seq<u8> {
    seq![79u8, 107u8]
}

pub open spec fn err_ident() -> Seq<u8> {
    seq![69u8, 114u8, 114u8]
}

/// The description of `Option<T>`: the enum `Option` with the variants
/// `None`, without fields, and `Some`, with one unnamed field of type `T`.
pub open spec fn option_type(t: TypeView) -> TypeView {
    TypeView::Enum {
        ident: option_ident(),
        variants: seq![
            VariantView { ident: none_ident(), fields: Seq::empty() },
            VariantView { ident: some_ident(), fields: seq![unnamed(t)] },
        ],
    }
}

/// The description of `Result<T, E>`: the enum `Result` with the variants
/// `Ok`, with one unnamed field of type `T`, and `Err`, with one unnamed
/// field of type `E`.
pub open spec fn result_type(t: TypeView, e: TypeView) -> TypeView {
    TypeView::Enum {
        ident: result_ident(),
        variants: seq![
            VariantView { ident: ok_ident(), fields: seq![unnamed(t)] },
            VariantView { ident: err_ident(), fields: seq![unnamed(e)] },
        ],
    }
}

impl From<PrimitiveType> for XcqType {
    fn from(p: PrimitiveType) -> (r: XcqType) {
        XcqType::Primitive(p)
    }
}

impl vstd::std_specs::convert::FromSpecImpl<PrimitiveType> for XcqType {
    open spec fn obeys_from_spec() -> bool {
        true
    }

    open spec fn from_spec(p: PrimitiveType) -> XcqType {
        XcqType::Primitive(p)
    }
}

impl From<StructType> for XcqType {
    fn from(s: StructType) -> (r: XcqType) {
        XcqType::Struct(s)
    }
}

impl vstd::std_specs::convert::FromSpecImpl<StructType> for XcqType {
    open spec fn obeys_from_spec() -> bool {
        true
    }

    open spec fn from_spec(s: StructType) -> XcqType {
        XcqType::Struct(s)
    }
}

impl From<EnumType> for XcqType {
    fn from(e: EnumType) -> (r: XcqType) {
        XcqType::Enum(e)
    }
}

impl vstd::std_specs::convert::FromSpecImpl<EnumType> for XcqType {
    open spec fn obeys_from_spec() -> bool {
        true
    }

    open spec fn from_spec(e: EnumType) -> XcqType {
        XcqType::Enum(e)
    }
}

fn unnamed_field(ty: XcqType) -> (r: Field)
    ensures
        r@ == unnamed(ty@),
{
    let f = Field { ident: Vec::new(), ty };
    assert(f@.ident =~= Seq::<u8>::empty());
    f
}

fn variant_of(ident: Vec<u8>, fields: Vec<Field>) -> (r: Variant)
    ensures
        r@ == (VariantView { ident: ident@, fields: view_fields(fields@) }),
{
    Variant { ident, fields }
}

fn one_field(f: Field) -> (r: Vec<Field>)
    ensures
        view_fields(r@) == seq![f@],
{
    let v = vec![f];
    proof {
        lemma_view_fields(v@);
        assert(view_fields(v@) =~= seq![f@]);
    }
    v
}

fn two_variants(a: Variant, b: Variant) -> (r: Vec<Variant>)
    ensures
        view_variants(r@) == seq![a@, b@],
{
    let v = vec![a, b];
    proof {
        lemma_view_variants(v@);
        assert(view_variants(v@) =~= seq![a@, b@]);
    }
    v
}

/// The description of `Option<T>` built from the description of `T`.
pub fn option_type_info(t: XcqType) -> (r: XcqType)
    ensures
        r@ == option_type(t@),
{
    let none = variant_of(vec![78u8, 111u8, 110u8, 101u8], Vec::new());
    let some = variant_of(vec![83u8, 111u8, 109u8, 101u8], one_field(unnamed_field(t)));
    let ident = vec![79u8, 112u8, 116u8, 105u8, 111u8, 110u8];
    let variants = two_variants(none, some);
    proof {
        assert(view_fields(Seq::<Field>::empty()) =~= Seq::<FieldView>::empty());
        assert(ident@ =~= option_ident());
        assert(none@.ident =~= none_ident());
        assert(some@.ident =~= some_ident());
    }
    let r = XcqType::Enum(EnumType { ident, variants });
    assert(r@ =~= option_type(t@));
    r
}

/// The description of `Result<T, E>` built from the descriptions of `T`
/// and `E`.
pub fn result_type_info(t: XcqType, e: XcqType) -> (r: XcqType)
    ensures
        r@ == result_type(t@, e@),
{
    let ok = variant_of(vec![79u8, 107u8], one_field(unnamed_field(t)));
    let err = variant_of(vec![69u8, 114u8, 114u8], one_field(unnamed_field(e)));
    let ident = vec![82u8, 101u8, 115u8, 117u8, 108u8, 116u8];
    let variants = two_variants(ok, err);
    proof {
        assert(ident@ =~= result_ident());
        assert(ok@.ident =~= ok_ident());
        assert(err@.ident =~= err_ident());
    }
    let r = XcqType::Enum(EnumType { ident, variants });
    assert(r@ =~= result_type(t@, e@));
    r
}

/// The description of a sequence of elements described by `elem`.
pub fn sequence_type_info(elem: XcqType) -> (r: XcqType)
    ensures
        r@ == sequence(elem@),
{
    XcqType::Sequence(Box::new(elem))
}

impl XcqTypeInfo for bool {
    type Identity = Self;

    open spec fn spec_type_info() -> TypeView {
        primitive(PrimitiveType::Bool)
    }

    fn type_info() -> (r: XcqType) {
        XcqType::Primitive(PrimitiveType::Bool)
    }
}

impl XcqTypeInfo for u8 {
    type Identity = Self;

    open spec fn spec_type_info() -> TypeView {
        primitive(PrimitiveType::U8)
    }

    fn type_info() -> (r: XcqType) {
        XcqType::Primitive(PrimitiveType::U8)
    }
}

impl XcqTypeInfo for u16 {
    type Identity = Self;

    open spec fn spec_type_info() -> TypeView {
        primitive(PrimitiveType::U16)
    }

    fn type_info() -> (r: XcqType) {
        XcqType::Primitive(PrimitiveType::U16)
    }
}

impl XcqTypeInfo for u32 {
    type Identity = Self;

    open spec fn spec_type_info() -> TypeView {
        primitive(PrimitiveType::U32)
    }

    fn type_info() -> (r: XcqType) {
        XcqType::Primitive(PrimitiveType::U32)
    }
}

impl XcqTypeInfo for u64 {
    type Identity = Self;

    open spec fn spec_type_info() -> TypeView {
        primitive(PrimitiveType::U64)
    }

    fn type_info() -> (r: XcqType) {
        XcqType::Primitive(PrimitiveType::U64)
    }
}

impl XcqTypeInfo for u128 {
    type Identity = Self;

    open spec fn spec_type_info() -> TypeView {
        primitive(PrimitiveType::U128)
    }

    fn type_info() -> (r: XcqType) {
        XcqType::Primitive(PrimitiveType::U128)
    }
}

impl XcqTypeInfo for i8 {
    type Identity = Self;

    open spec fn spec_type_info() -> TypeView {
        primitive(PrimitiveType::I8)
    }

    fn type_info() -> (r: XcqType) {
        XcqType::Primitive(PrimitiveType::I8)
    }
}

impl XcqTypeInfo for i16 {
    type Identity = Self;

    open spec fn spec_type_info() -> TypeView {
        primitive(PrimitiveType::I16)
    }

    fn type_info() -> (r: XcqType) {
        XcqType::Primitive(PrimitiveType::I16)
    }
}

impl XcqTypeInfo for i32 {
    type Identity = Self;

    open spec fn spec_type_info() -> TypeView {
        primitive(PrimitiveType::I32)
    }

    fn type_info() -> (r: XcqType) {
        XcqType::Primitive(PrimitiveType::I32)
    }
}

impl XcqTypeInfo for i64 {
    type Identity = Self;

    open spec fn spec_type_info() -> TypeView {
        primitive(PrimitiveType::I64)
    }

    fn type_info() -> (r: XcqType) {
        XcqType::Primitive(PrimitiveType::I64)
    }
}

impl XcqTypeInfo for i128 {
    type Identity = Self;

    open spec fn spec_type_info() -> TypeView {
        primitive(PrimitiveType::I128)
    }

    fn type_info() -> (r: XcqType) {
        XcqType::Primitive(PrimitiveType::I128)
    }
}

impl XcqTypeInfo for [u8; 32] {
    type Identity = Self;

    open spec fn spec_type_info() -> TypeView {
        primitive(PrimitiveType::H256)
    }

    fn type_info() -> (r: XcqType) {
        XcqType::Primitive(PrimitiveType::H256)
    }
}

impl<T: XcqTypeInfo + 'static> XcqTypeInfo for Option<T> {
    type Identity = Self;

    open spec fn spec_type_info() -> TypeView {
        option_type(T::spec_type_info())
    }

    fn type_info() -> (r: XcqType) {
        option_type_info(T::type_info())
    }
}

impl<T: XcqTypeInfo + 'static, E: XcqTypeInfo + 'static> XcqTypeInfo for Result<T, E> {
    type Identity = Self;

    open spec fn spec_type_info() -> TypeView {
        result_type(T::spec_type_info(), E::spec_type_info())
    }

    fn type_info() -> (r: XcqType) {
        result_type_info(T::type_info(), E::type_info())
    }
}

impl<T: XcqTypeInfo + 'static> XcqTypeInfo for [T] {
    type Identity = Self;

    open spec fn spec_type_info() -> TypeView {
        sequence(T::spec_type_info())
    }

    fn type_info() -> (r: XcqType) {
        sequence_type_info(T::type_info())
    }
}

impl<T: XcqTypeInfo + 'static> XcqTypeInfo for Vec<T> {
    type Identity = [T];

    open spec fn spec_type_info() -> TypeView {
        sequence(T::spec_type_info())
    }

    fn type_info() -> (r: XcqType) {
        sequence_type_info(T::type_info())
    }
}

impl XcqTypeInfo for str {
    type Identity = str;

    open spec fn spec_type_info() -> TypeView {
        sequence(primitive(PrimitiveType::U8))
    }

    fn type_info() -> (r: XcqType) {
        sequence_type_info(XcqType::Primitive(PrimitiveType::U8))
    }
}

impl XcqTypeInfo for String {
    type Identity = str;

    open spec fn spec_type_info() -> TypeView {
        sequence(primitive(PrimitiveType::U8))
    }

    fn type_info() -> (r: XcqType) {
        sequence_type_info(XcqType::Primitive(PrimitiveType::U8))
    }
}

impl<T: XcqTypeInfo + ?Sized + 'static> XcqTypeInfo for Box<T> {
    type Identity = T;

    open spec fn spec_type_info() -> TypeView {
        T::spec_type_info()
    }

    fn type_info() -> (r: XcqType) {
        T::type_info()
    }
}

impl<T: XcqTypeInfo + ?Sized + 'static> XcqTypeInfo for std::sync::Arc<T> {
    type Identity = T;

    open spec fn spec_type_info() -> TypeView {
        T::spec_type_info()
    }

    fn type_info() -> (r: XcqType) {
        T::type_info()
    }
}

impl<T: XcqTypeInfo + ?Sized + 'static> XcqTypeInfo for std::rc::Rc<T> {
    type Identity = T;

    open spec fn spec_type_info() -> TypeView {
        T::spec_type_info()
    }

    fn type_info() -> (r: XcqType) {
        T::type_info()
    }
}

impl<T: XcqTypeInfo + ?Sized + 'static> XcqTypeInfo for &T {
    type Identity = T;

    open spec fn spec_type_info() -> TypeView {
        T::spec_type_info()
    }

    fn type_info() -> (r: XcqType) {
        T::type_info()
    }
}

impl<T: XcqTypeInfo + ?Sized + 'static> XcqTypeInfo for &mut T {
    type Identity = T;

    open spec fn spec_type_info() -> TypeView {
        T::spec_type_info()
    }

    fn type_info() -> (r: XcqType) {
        T::type_info()
    }
}

impl XcqTypeInfo for () {
    type Identity = Self;

    open spec fn spec_type_info() -> TypeView {
        TypeView::Tuple(Seq::empty())
    }

    fn type_info() -> (r: XcqType) {
        let mut v: Vec<XcqType> = Vec::new();
        proof {
            lemma_view_types(v@);
            assert(view_types(v@) =~= Seq::empty());
        }
        XcqType::Tuple(v)
    }
}

impl<A: XcqTypeInfo + 'static> XcqTypeInfo for (A,) {
    type Identity = Self;

    open spec fn spec_type_info() -> TypeView {
        TypeView::Tuple(seq![A::spec_type_info()])
    }

    fn type_info() -> (r: XcqType) {
        let mut v: Vec<XcqType> = Vec::new();
        v.push(A::type_info());
        proof {
            lemma_view_types(v@);
            assert(view_types(v@) =~= seq![A::spec_type_info()]);
        }
        XcqType::Tuple(v)
    }
}

impl<A: XcqTypeInfo + 'static, B: XcqTypeInfo + 'static> XcqTypeInfo for (A, B) {
    type Identity = Self;

    open spec fn spec_type_info() -> TypeView {
        TypeView::Tuple(seq![A::spec_type_info(), B::spec_type_info()])
    }

    fn type_info() -> (r: XcqType) {
        let mut v: Vec<XcqType> = Vec::new();
        v.push(A::type_info());
        v.push(B::type_info());
        proof {
            lemma_view_types(v@);
            assert(view_types(v@) =~= seq![A::spec_type_info(), B::spec_type_info()]);
        }
        XcqType::Tuple(v)
    }
}

impl<A: XcqTypeInfo + 'static, B: XcqTypeInfo + 'static, C: XcqTypeInfo + 'static> XcqTypeInfo for (A, B, C) {
    type Identity = Self;

    open spec fn spec_type_info() -> TypeView {
        TypeView::Tuple(seq![A::spec_type_info(), B::spec_type_info(), C::spec_type_info()])
    }

    fn type_info() -> (r: XcqType) {
        let mut v: Vec<XcqType> = Vec::new();
        v.push(A::type_info());
        v.push(B::type_info());
        v.push(C::type_info());
        proof {
            lemma_view_types(v@);
            assert(view_types(v@) =~= seq![A::spec_type_info(), B::spec_type_info(), C::spec_type_info()]);
        }
        XcqType::Tuple(v)
    }
}

impl<A: XcqTypeInfo + 'static, B: XcqTypeInfo + 'static, C: XcqTypeInfo + 'static, D: XcqTypeInfo + 'static> XcqTypeInfo for (A, B, C, D) {
    type Identity = Self;

    open spec fn spec_type_info() -> TypeView {
        TypeView::Tuple(seq![A::spec_type_info(), B::spec_type_info(), C::spec_type_info(), D::spec_type_info()])
    }

    fn type_info() -> (r: XcqType) {
        let mut v: Vec<XcqType> = Vec::new();
        v.push(A::type_info());
        v.push(B::type_info());
        v.push(C::type_info());
        v.push(D::type_info());
        proof {
            lemma_view_types(v@);
            assert(view_types(v@) =~= seq![A::spec_type_info(), B::spec_type_info(), C::spec_type_info(), D::spec_type_info()]);
        }
        XcqType::Tuple(v)
    }
}

impl<A: XcqTypeInfo + 'static, B: XcqTypeInfo + 'static, C: XcqTypeInfo + 'static, D: XcqTypeInfo + 'static, E: XcqTypeInfo + 'static> XcqTypeInfo for (A, B, C, D, E) {
    type Identity = Self;

    open spec fn spec_type_info() -> TypeView {
        TypeView::Tuple(seq![A::spec_type_info(), B::spec_type_info(), C::spec_type_info(), D::spec_type_info(), E::spec_type_info()])
    }

    fn type_info() -> (r: XcqType) {
        let mut v: Vec<XcqType> = Vec::new();
        v.push(A::type_info());
        v.push(B::type_info());
        v.push(C::type_info());
        v.push(D::type_info());
        v.push(E::type_info());
        proof {
            lemma_view_types(v@);
            assert(view_types(v@) =~= seq![A::spec_type_info(), B::spec_type_info(), C::spec_type_info(), D::spec_type_info(), E::spec_type_info()]);
        }
        XcqType::Tuple(v)
    }
}

impl<A: XcqTypeInfo + 'static, B: XcqTypeInfo + 'static, C: XcqTypeInfo + 'static, D: XcqTypeInfo + 'static, E: XcqTypeInfo + 'static, F: XcqTypeInfo + 'static> XcqTypeInfo for (A, B, C, D, E, F) {
    type Identity = Self;

    open spec fn spec_type_info() -> TypeView {
        TypeView::Tuple(seq![A::spec_type_info(), B::spec_type_info(), C::spec_type_info(), D::spec_type_info(), E::spec_type_info(), F::spec_type_info()])
    }

    fn type_info() -> (r: XcqType) {
        let mut v: Vec<XcqType> = Vec::new();
        v.push(A::type_info());
        v.push(B::type_info());
        v.push(C::type_info());
        v.push(D::type_info());
        v.push(E::type_info());
        v.push(F::type_info());
        proof {
            lemma_view_types(v@);
            assert(view_types(v@) =~= seq![A::spec_type_info(), B::spec_type_info(), C::spec_type_info(), D::spec_type_info(), E::spec_type_info(), F::spec_type_info()]);
        }
        XcqType::Tuple(v)
    }
}

impl<A: XcqTypeInfo + 'static, B: XcqTypeInfo + 'static, C: XcqTypeInfo + 'static, D: XcqTypeInfo + 'static, E: XcqTypeInfo + 'static, F: XcqTypeInfo + 'static, G: XcqTypeInfo + 'static> XcqTypeInfo for (A, B, C, D, E, F, G) {
    type Identity = Self;

    open spec fn spec_type_info() -> TypeView {
        TypeView::Tuple(seq![A::spec_type_info(), B::spec_type_info(), C::spec_type_info(), D::spec_type_info(), E::spec_type_info(), F::spec_type_info(), G::spec_type_info()])
    }

    fn type_info() -> (r: XcqType) {
        let mut v: Vec<XcqType> = Vec::new();
        v.push(A::type_info());
        v.push(B::type_info());
        v.push(C::type_info());
        v.push(D::type_info());
        v.push(E::type_info());
        v.push(F::type_info());
        v.push(G::type_info());
        proof {
            lemma_view_types(v@);
            assert(view_types(v@) =~= seq![A::spec_type_info(), B::spec_type_info(), C::spec_type_info(), D::spec_type_info(), E::spec_type_info(), F::spec_type_info(), G::spec_type_info()]);
        }
        XcqType::Tuple(v)
    }
}

impl<A: XcqTypeInfo + 'static, B: XcqTypeInfo + 'static, C: XcqTypeInfo + 'static, D: XcqTypeInfo + 'static, E: XcqTypeInfo + 'static, F: XcqTypeInfo + 'static, G: XcqTypeInfo + 'static, H: XcqTypeInfo + 'static> XcqTypeInfo for (A, B, C, D, E, F, G, H) {
    type Identity = Self;

    open spec fn spec_type_info() -> TypeView {
        TypeView::Tuple(seq![A::spec_type_info(), B::spec_type_info(), C::spec_type_info(), D::spec_type_info(), E::spec_type_info(), F::spec_type_info(), G::spec_type_info(), H::spec_type_info()])
    }

    fn type_info() -> (r: XcqType) {
        let mut v: Vec<XcqType> = Vec::new();
        v.push(A::type_info());
        v.push(B::type_info());
        v.push(C::type_info());
        v.push(D::type_info());
        v.push(E::type_info());
        v.push(F::type_info());
        v.push(G::type_info());
        v.push(H::type_info());
        proof {
            lemma_view_types(v@);
            assert(view_types(v@) =~= seq![A::spec_type_info(), B::spec_type_info(), C::spec_type_info(), D::spec_type_info(), E::spec_type_info(), F::spec_type_info(), G::spec_type_info(), H::spec_type_info()]);
        }
        XcqType::Tuple(v)
    }
}

impl<A: XcqTypeInfo + 'static, B: XcqTypeInfo + 'static, C: XcqTypeInfo + 'static, D: XcqTypeInfo + 'static, E: XcqTypeInfo + 'static, F: XcqTypeInfo + 'static, G: XcqTypeInfo + 'static, H: XcqTypeInfo + 'static, I: XcqTypeInfo + 'static> XcqTypeInfo for (A, B, C, D, E, F, G, H, I) {
    type Identity = Self;

    open spec fn spec_type_info() -> TypeView {
        TypeView::Tuple(seq![A::spec_type_info(), B::spec_type_info(), C::spec_type_info(), D::spec_type_info(), E::spec_type_info(), F::spec_type_info(), G::spec_type_info(), H::spec_type_info(), I::spec_type_info()])
    }

    fn type_info() -> (r: XcqType) {
        let mut v: Vec<XcqType> = Vec::new();
        v.push(A::type_info());
        v.push(B::type_info());
        v.push(C::type_info());
        v.push(D::type_info());
        v.push(E::type_info());
        v.push(F::type_info());
        v.push(G::type_info());
        v.push(H::type_info());
        v.push(I::type_info());
        proof {
            lemma_view_types(v@);
            assert(view_types(v@) =~= seq![A::spec_type_info(), B::spec_type_info(), C::spec_type_info(), D::spec_type_info(), E::spec_type_info(), F::spec_type_info(), G::spec_type_info(), H::spec_type_info(), I::spec_type_info()]);
        }
        XcqType::Tuple(v)
    }
}

impl<A: XcqTypeInfo + 'static, B: XcqTypeInfo + 'static, C: XcqTypeInfo + 'static, D: XcqTypeInfo + 'static, E: XcqTypeInfo + 'static, F: XcqTypeInfo + 'static, G: XcqTypeInfo + 'static, H: XcqTypeInfo + 'static, I: XcqTypeInfo + 'static, J: XcqTypeInfo + 'static> XcqTypeInfo for (A, B, C, D, E, F, G, H, I, J) {
    type Identity = Self;

    open spec fn spec_type_info() -> TypeView {
        TypeView::Tuple(seq![A::spec_type_info(), B::spec_type_info(), C::spec_type_info(), D::spec_type_info(), E::spec_type_info(), F::spec_type_info(), G::spec_type_info(), H::spec_type_info(), I::spec_type_info(), J::spec_type_info()])
    }

    fn type_info() -> (r: XcqType) {
        let mut v: Vec<XcqType> = Vec::new();
        v.push(A::type_info());
        v.push(B::type_info());
        v.push(C::type_info());
        v.push(D::type_info());
        v.push(E::type_info());
        v.push(F::type_info());
        v.push(G::type_info());
        v.push(H::type_info());
        v.push(I::type_info());
        v.push(J::type_info());
        proof {
            lemma_view_types(v@);
            assert(view_types(v@) =~= seq![A::spec_type_info(), B::spec_type_info(), C::spec_type_info(), D::spec_type_info(), E::spec_type_info(), F::spec_type_info(), G::spec_type_info(), H::spec_type_info(), I::spec_type_info(), J::spec_type_info()]);
        }
        XcqType::Tuple(v)
    }
}

impl<A: XcqTypeInfo + 'static, B: XcqTypeInfo + 'static, C: XcqTypeInfo + 'static, D: XcqTypeInfo + 'static, E: XcqTypeInfo + 'static, F: XcqTypeInfo + 'static, G: XcqTypeInfo + 'static, H: XcqTypeInfo + 'static, I: XcqTypeInfo + 'static, J: XcqTypeInfo + 'static, K: XcqTypeInfo + 'static> XcqTypeInfo for (A, B, C, D, E, F, G, H, I, J, K) {
    type Identity = Self;

    open spec fn spec_type_info() -> TypeView {
        TypeView::Tuple(seq![A::spec_type_info(), B::spec_type_info(), C::spec_type_info(), D::spec_type_info(), E::spec_type_info(), F::spec_type_info(), G::spec_type_info(), H::spec_type_info(), I::spec_type_info(), J::spec_type_info(), K::spec_type_info()])
    }

    fn type_info() -> (r: XcqType) {
        let mut v: Vec<XcqType> = Vec::new();
        v.push(A::type_info());
        v.push(B::type_info());
        v.push(C::type_info());
        v.push(D::type_info());
        v.push(E::type_info());
        v.push(F::type_info());
        v.push(G::type_info());
        v.push(H::type_info());
        v.push(I::type_info());
        v.push(J::type_info());
        v.push(K::type_info());
        proof {
            lemma_view_types(v@);
            assert(view_types(v@) =~= seq![A::spec_type_info(), B::spec_type_info(), C::spec_type_info(), D::spec_type_info(), E::spec_type_info(), F::spec_type_info(), G::spec_type_info(), H::spec_type_info(), I::spec_type_info(), J::spec_type_info(), K::spec_type_info()]);
        }
        XcqType::Tuple(v)
    }
}

impl<A: XcqTypeInfo + 'static, B: XcqTypeInfo + 'static, C: XcqTypeInfo + 'static, D: XcqTypeInfo + 'static, E: XcqTypeInfo + 'static, F: XcqTypeInfo + 'static, G: XcqTypeInfo + 'static, H: XcqTypeInfo + 'static, I: XcqTypeInfo + 'static, J: XcqTypeInfo + 'static, K: XcqTypeInfo + 'static, L: XcqTypeInfo + 'static> XcqTypeInfo for (A, B, C, D, E, F, G, H, I, J, K, L) {
    type Identity = Self;

    open spec fn spec_type_info() -> TypeView {
        TypeView::Tuple(seq![A::spec_type_info(), B::spec_type_info(), C::spec_type_info(), D::spec_type_info(), E::spec_type_info(), F::spec_type_info(), G::spec_type_info(), H::spec_type_info(), I::spec_type_info(), J::spec_type_info(), K::spec_type_info(), L::spec_type_info()])
    }

    fn type_info() -> (r: XcqType) {
        let mut v: Vec<XcqType> = Vec::new();
        v.push(A::type_info());
        v.push(B::type_info());
        v.push(C::type_info());
        v.push(D::type_info());
        v.push(E::type_info());
        v.push(F::type_info());
        v.push(G::type_info());
        v.push(H::type_info());
        v.push(I::type_info());
        v.push(J::type_info());
        v.push(K::type_info());
        v.push(L::type_info());
        proof {
            lemma_view_types(v@);
            assert(view_types(v@) =~= seq![A::spec_type_info(), B::spec_type_info(), C::spec_type_info(), D::spec_type_info(), E::spec_type_info(), F::spec_type_info(), G::spec_type_info(), H::spec_type_info(), I::spec_type_info(), J::spec_type_info(), K::spec_type_info(), L::spec_type_info()]);
        }
        XcqType::Tuple(v)
    }
}

impl<A: XcqTypeInfo + 'static, B: XcqTypeInfo + 'static, C: XcqTypeInfo + 'static, D: XcqTypeInfo + 'static, E: XcqTypeInfo + 'static, F: XcqTypeInfo + 'static, G: XcqTypeInfo + 'static, H: XcqTypeInfo + 'static, I: XcqTypeInfo + 'static, J: XcqTypeInfo + 'static, K: XcqTypeInfo + 'static, L: XcqTypeInfo + 'static, M: XcqTypeInfo + 'static> XcqTypeInfo for (A, B, C, D, E, F, G, H, I, J, K, L, M) {
    type Identity = Self;

    open spec fn spec_type_info() -> TypeView {
        TypeView::Tuple(seq![A::spec_type_info(), B::spec_type_info(), C::spec_type_info(), D::spec_type_info(), E::spec_type_info(), F::spec_type_info(), G::spec_type_info(), H::spec_type_info(), I::spec_type_info(), J::spec_type_info(), K::spec_type_info(), L::spec_type_info(), M::spec_type_info()])
    }

    fn type_info() -> (r: XcqType) {
        let mut v: Vec<XcqType> = Vec::new();
        v.push(A::type_info());
        v.push(B::type_info());
        v.push(C::type_info());
        v.push(D::type_info());
        v.push(E::type_info());
        v.push(F::type_info());
        v.push(G::type_info());
        v.push(H::type_info());
        v.push(I::type_info());
        v.push(J::type_info());
        v.push(K::type_info());
        v.push(L::type_info());
        v.push(M::type_info());
        proof {
            lemma_view_types(v@);
            assert(view_types(v@) =~= seq![A::spec_type_info(), B::spec_type_info(), C::spec_type_info(), D::spec_type_info(), E::spec_type_info(), F::spec_type_info(), G::spec_type_info(), H::spec_type_info(), I::spec_type_info(), J::spec_type_info(), K::spec_type_info(), L::spec_type_info(), M::spec_type_info()]);
        }
        XcqType::Tuple(v)
    }
}

impl<A: XcqTypeInfo + 'static, B: XcqTypeInfo + 'static, C: XcqTypeInfo + 'static, D: XcqTypeInfo + 'static, E: XcqTypeInfo + 'static, F: XcqTypeInfo + 'static, G: XcqTypeInfo + 'static, H: XcqTypeInfo + 'static, I: XcqTypeInfo + 'static, J: XcqTypeInfo + 'static, K: XcqTypeInfo + 'static, L: XcqTypeInfo + 'static, M: XcqTypeInfo + 'static, N: XcqTypeInfo + 'static> XcqTypeInfo for (A, B, C, D, E, F, G, H, I, J, K, L, M, N) {
    type Identity = Self;

    open spec fn spec_type_info() -> TypeView {
        TypeView::Tuple(seq![A::spec_type_info(), B::spec_type_info(), C::spec_type_info(), D::spec_type_info(), E::spec_type_info(), F::spec_type_info(), G::spec_type_info(), H::spec_type_info(), I::spec_type_info(), J::spec_type_info(), K::spec_type_info(), L::spec_type_info(), M::spec_type_info(), N::spec_type_info()])
    }

    fn type_info() -> (r: XcqType) {
        let mut v: Vec<XcqType> = Vec::new();
        v.push(A::type_info());
        v.push(B::type_info());
        v.push(C::type_info());
        v.push(D::type_info());
        v.push(E::type_info());
        v.push(F::type_info());
        v.push(G::type_info());
        v.push(H::type_info());
        v.push(I::type_info());
        v.push(J::type_info());
        v.push(K::type_info());
        v.push(L::type_info());
        v.push(M::type_info());
        v.push(N::type_info());
        proof {
            lemma_view_types(v@);
            assert(view_types(v@) =~= seq![A::spec_type_info(), B::spec_type_info(), C::spec_type_info(), D::spec_type_info(), E::spec_type_info(), F::spec_type_info(), G::spec_type_info(), H::spec_type_info(), I::spec_type_info(), J::spec_type_info(), K::spec_type_info(), L::spec_type_info(), M::spec_type_info(), N::spec_type_info()]);
        }
        XcqType::Tuple(v)
    }
}

impl<A: XcqTypeInfo + 'static, B: XcqTypeInfo + 'static, C: XcqTypeInfo + 'static, D: XcqTypeInfo + 'static, E: XcqTypeInfo + 'static, F: XcqTypeInfo + 'static, G: XcqTypeInfo + 'static, H: XcqTypeInfo + 'static, I: XcqTypeInfo + 'static, J: XcqTypeInfo + 'static, K: XcqTypeInfo + 'static, L: XcqTypeInfo + 'static, M: XcqTypeInfo + 'static, N: XcqTypeInfo + 'static, O: XcqTypeInfo + 'static> XcqTypeInfo for (A, B, C, D, E, F, G, H, I, J, K, L, M, N, O) {
    type Identity = Self;

    open spec fn spec_type_info() -> TypeView {
        TypeView::Tuple(seq![A::spec_type_info(), B::spec_type_info(), C::spec_type_info(), D::spec_type_info(), E::spec_type_info(), F::spec_type_info(), G::spec_type_info(), H::spec_type_info(), I::spec_type_info(), J::spec_type_info(), K::spec_type_info(), L::spec_type_info(), M::spec_type_info(), N::spec_type_info(), O::spec_type_info()])
    }

    fn type_info() -> (r: XcqType) {
        let mut v: Vec<XcqType> = Vec::new();
        v.push(A::type_info());
        v.push(B::type_info());
        v.push(C::type_info());
        v.push(D::type_info());
        v.push(E::type_info());
        v.push(F::type_info());
        v.push(G::type_info());
        v.push(H::type_info());
        v.push(I::type_info());
        v.push(J::type_info());
        v.push(K::type_info());
        v.push(L::type_info());
        v.push(M::type_info());
        v.push(N::type_info());
        v.push(O::type_info());
        proof {
            lemma_view_types(v@);
            assert(view_types(v@) =~= seq![A::spec_type_info(), B::spec_type_info(), C::spec_type_info(), D::spec_type_info(), E::spec_type_info(), F::spec_type_info(), G::spec_type_info(), H::spec_type_info(), I::spec_type_info(), J::spec_type_info(), K::spec_type_info(), L::spec_type_info(), M::spec_type_info(), N::spec_type_info(), O::spec_type_info()]);
        }
        XcqType::Tuple(v)
    }
}

impl<A: XcqTypeInfo + 'static, B: XcqTypeInfo + 'static, C: XcqTypeInfo + 'static, D: XcqTypeInfo + 'static, E: XcqTypeInfo + 'static, F: XcqTypeInfo + 'static, G: XcqTypeInfo + 'static, H: XcqTypeInfo + 'static, I: XcqTypeInfo + 'static, J: XcqTypeInfo + 'static, K: XcqTypeInfo + 'static, L: XcqTypeInfo + 'static, M: XcqTypeInfo + 'static, N: XcqTypeInfo + 'static, O: XcqTypeInfo + 'static, P: XcqTypeInfo + 'static> XcqTypeInfo for (A, B, C, D, E, F, G, H, I, J, K, L, M, N, O, P) {
    type Identity = Self;

    open spec fn spec_type_info() -> TypeView {
        TypeView::Tuple(seq![A::spec_type_info(), B::spec_type_info(), C::spec_type_info(), D::spec_type_info(), E::spec_type_info(), F::spec_type_info(), G::spec_type_info(), H::spec_type_info(), I::spec_type_info(), J::spec_type_info(), K::spec_type_info(), L::spec_type_info(), M::spec_type_info(), N::spec_type_info(), O::spec_type_info(), P::spec_type_info()])
    }

    fn type_info() -> (r: XcqType) {
        let mut v: Vec<XcqType> = Vec::new();
        v.push(A::type_info());
        v.push(B::type_info());
        v.push(C::type_info());
        v.push(D::type_info());
        v.push(E::type_info());
        v.push(F::type_info());
        v.push(G::type_info());
        v.push(H::type_info());
        v.push(I::type_info());
        v.push(J::type_info());
        v.push(K::type_info());
        v.push(L::type_info());
        v.push(M::type_info());
        v.push(N::type_info());
        v.push(O::type_info());
        v.push(P::type_info());
        proof {
            lemma_view_types(v@);
            assert(view_types(v@) =~= seq![A::spec_type_info(), B::spec_type_info(), C::spec_type_info(), D::spec_type_info(), E::spec_type_info(), F::spec_type_info(), G::spec_type_info(), H::spec_type_info(), I::spec_type_info(), J::spec_type_info(), K::spec_type_info(), L::spec_type_info(), M::spec_type_info(), N::spec_type_info(), O::spec_type_info(), P::spec_type_info()]);
        }
        XcqType::Tuple(v)
    }
}

impl<T: XcqTypeInfo + ?Sized + 'static> XcqStaticTypeInfo for T {}

#[verifier::external_type_specification]
#[verifier::external_body]
pub struct ExTypeId(std::any::TypeId);

/// `std::any::TypeId::of`: the identifier of the type `T`. Nothing is stated
/// of the value, which the compiler chooses.
#[verifier::external_body]
fn type_id_of<T: ?Sized + 'static>() -> std::any::TypeId {
    std::any::TypeId::of::<T>()
}

/// `PartialEq::eq` of `std::any::TypeId`: whether the two identifiers are
/// the same value.
#[verifier::external_body]
fn same_type_id(a: &std::any::TypeId, b: &std::any::TypeId) -> (r: bool)
    ensures
        r == (*a == *b),
{
    *a == *b
}

/// A run-time handle on the description of a type, and the identifier of
/// the type that identifies it. Two handles are equal where they carry the
/// same identifier.
#[derive(Eq, PartialOrd, Ord, Hash, Debug)]
pub struct MetaType {
    type_id: std::any::TypeId,
    info: XcqType,
}

impl MetaType {
    /// The description a handle carries can be encoded.
    #[verifier::type_invariant]
    spec fn inv(self) -> bool {
        type_wf(self.info@)
    }

    /// The description of the type.
    pub closed spec fn spec_info(self) -> TypeView {
        self.info@
    }

    /// The identifier of the type that the handle carries.
    pub closed spec fn spec_type_id(self) -> std::any::TypeId {
        self.type_id
    }

    /// Creates the handle of the type `T`.
    pub fn new<T: XcqTypeInfo + ?Sized + 'static>() -> (m: MetaType)
        requires
            type_wf(T::spec_type_info()),
        ensures
            m.spec_info() == T::spec_type_info(),
    {
        MetaType { type_id: type_id_of::<T::Identity>(), info: T::type_info() }
    }

    /// Returns the description of the type.
    pub fn type_info(&self) -> (r: XcqType)
        ensures
            r@ == self.spec_info(),
            type_wf(r@),
    {
        proof {
            use_type_invariant(self);
        }
        self.info.deep_copy()
    }

    /// Returns the identifier of the type.
    pub fn type_id(&self) -> (r: std::any::TypeId)
        ensures
            r == self.spec_type_id(),
    {
        self.type_id
    }
}

impl PartialEq for MetaType {
    fn eq(&self, other: &Self) -> (r: bool) {
        same_type_id(&self.type_id, &other.type_id)
    }
}

impl vstd::std_specs::cmp::PartialEqSpecImpl for MetaType {
    open spec fn obeys_eq_spec() -> bool {
        true
    }

    open spec fn eq_spec(&self, other: &Self) -> bool {
        self.spec_type_id() == other.spec_type_id()
    }
}

impl Clone for MetaType {
    fn clone(&self) -> (r: Self)
        ensures
            r.spec_info() == self.spec_info(),
            r.spec_type_id() == self.spec_type_id(),
    {
        proof {
            use_type_invariant(self);
        }
        MetaType { type_id: self.type_id, info: self.info.deep_copy() }
    }
}

/// The handle of the type `T`.
pub fn meta_type<T: XcqTypeInfo + ?Sized + 'static>() -> (m: MetaType)
    requires
        type_wf(T::spec_type_info()),
    ensures
        m.spec_info() == T::spec_type_info(),
{
    MetaType::new::<T>()
}

/// Law: each primitive Rust type is described by the primitive it names,
/// and its description encodes as `0` followed by that primitive's index:
/// `bool` 0, `u8` 2, `u16` 3, `u32` 4, `u64` 5, `u128` 6, `i8` 7, `i16` 8,
/// `i32` 9, `i64` 10, `i128` 11, `[u8; 32]` (H256) 14. Strings are
/// sequences of `u8`, and `()` is the empty tuple.
pub proof fn law_primitive_descriptions()
    ensures
        <bool as XcqTypeInfo>::spec_type_info() == TypeView::Primitive(PrimitiveType::Bool),
        <u8 as XcqTypeInfo>::spec_type_info() == TypeView::Primitive(PrimitiveType::U8),
        <u16 as XcqTypeInfo>::spec_type_info() == TypeView::Primitive(PrimitiveType::U16),
        <u32 as XcqTypeInfo>::spec_type_info() == TypeView::Primitive(PrimitiveType::U32),
        <u64 as XcqTypeInfo>::spec_type_info() == TypeView::Primitive(PrimitiveType::U64),
        <u128 as XcqTypeInfo>::spec_type_info() == TypeView::Primitive(PrimitiveType::U128),
        <i8 as XcqTypeInfo>::spec_type_info() == TypeView::Primitive(PrimitiveType::I8),
        <i16 as XcqTypeInfo>::spec_type_info() == TypeView::Primitive(PrimitiveType::I16),
        <i32 as XcqTypeInfo>::spec_type_info() == TypeView::Primitive(PrimitiveType::I32),
        <i64 as XcqTypeInfo>::spec_type_info() == TypeView::Primitive(PrimitiveType::I64),
        <i128 as XcqTypeInfo>::spec_type_info() == TypeView::Primitive(PrimitiveType::I128),
        <[u8; 32] as XcqTypeInfo>::spec_type_info() == TypeView::Primitive(PrimitiveType::H256),
        type_encoding(<bool as XcqTypeInfo>::spec_type_info()) == seq![0u8, 0u8],
        type_encoding(<u8 as XcqTypeInfo>::spec_type_info()) == seq![0u8, 2u8],
        type_encoding(<u16 as XcqTypeInfo>::spec_type_info()) == seq![0u8, 3u8],
        type_encoding(<u32 as XcqTypeInfo>::spec_type_info()) == seq![0u8, 4u8],
        type_encoding(<u64 as XcqTypeInfo>::spec_type_info()) == seq![0u8, 5u8],
        type_encoding(<u128 as XcqTypeInfo>::spec_type_info()) == seq![0u8, 6u8],
        type_encoding(<i8 as XcqTypeInfo>::spec_type_info()) == seq![0u8, 7u8],
        type_encoding(<i16 as XcqTypeInfo>::spec_type_info()) == seq![0u8, 8u8],
        type_encoding(<i32 as XcqTypeInfo>::spec_type_info()) == seq![0u8, 9u8],
        type_encoding(<i64 as XcqTypeInfo>::spec_type_info()) == seq![0u8, 10u8],
        type_encoding(<i128 as XcqTypeInfo>::spec_type_info()) == seq![0u8, 11u8],
        type_encoding(<[u8; 32] as XcqTypeInfo>::spec_type_info()) == seq![0u8, 14u8],
        <String as XcqTypeInfo>::spec_type_info() == TypeView::Sequence(
            Box::new(TypeView::Primitive(PrimitiveType::U8)),
        ),
        <str as XcqTypeInfo>::spec_type_info() == TypeView::Sequence(
            Box::new(TypeView::Primitive(PrimitiveType::U8)),
        ),
        <() as XcqTypeInfo>::spec_type_info() == TypeView::Tuple(Seq::empty()),
{
}

/// Law: the descriptions of the standard wrappers. `Option<T>` is the enum
/// `Option` with `None` (no fields), then `Some` (one unnamed field of
/// `T`); `Result<T, E>` the enum `Result` with `Ok(T)`, then `Err(E)`;
/// slices and vectors are sequences of their elements; boxes, shared
/// pointers and references are described as what they point to.
pub proof fn law_wrapper_descriptions<T: XcqTypeInfo + 'static, E: XcqTypeInfo + 'static>()
    ensures
        <Option<T> as XcqTypeInfo>::spec_type_info() == (TypeView::Enum {
            ident: seq![79u8, 112u8, 116u8, 105u8, 111u8, 110u8],
            variants: seq![
                VariantView { ident: seq![78u8, 111u8, 110u8, 101u8], fields: Seq::empty() },
                VariantView {
                    ident: seq![83u8, 111u8, 109u8, 101u8],
                    fields: seq![FieldView { ident: Seq::empty(), ty: T::spec_type_info() }],
                },
            ],
        }),
        <Result<T, E> as XcqTypeInfo>::spec_type_info() == (TypeView::Enum {
            ident: seq![82u8, 101u8, 115u8, 117u8, 108u8, 116u8],
            variants: seq![
                VariantView {
                    ident: seq![79u8, 107u8],
                    fields: seq![FieldView { ident: Seq::empty(), ty: T::spec_type_info() }],
                },
                VariantView {
                    ident: seq![69u8, 114u8, 114u8],
                    fields: seq![FieldView { ident: Seq::empty(), ty: E::spec_type_info() }],
                },
            ],
        }),
        <[T] as XcqTypeInfo>::spec_type_info() == TypeView::Sequence(Box::new(T::spec_type_info())),
        <Vec<T> as XcqTypeInfo>::spec_type_info() == TypeView::Sequence(Box::new(T::spec_type_info())),
        <Box<T> as XcqTypeInfo>::spec_type_info() == T::spec_type_info(),
        <std::sync::Arc<T> as XcqTypeInfo>::spec_type_info() == T::spec_type_info(),
        <std::rc::Rc<T> as XcqTypeInfo>::spec_type_info() == T::spec_type_info(),
        <&T as XcqTypeInfo>::spec_type_info() == T::spec_type_info(),
        <&mut T as XcqTypeInfo>::spec_type_info() == T::spec_type_info(),
{
}

/// Law: a tuple is described by the descriptions of its elements, in
/// their order.
pub proof fn law_tuple_descriptions<A: XcqTypeInfo + 'static, B: XcqTypeInfo + 'static, C: XcqTypeInfo + 'static, D: XcqTypeInfo + 'static, E: XcqTypeInfo + 'static, F: XcqTypeInfo + 'static, G: XcqTypeInfo + 'static, H: XcqTypeInfo + 'static, I: XcqTypeInfo + 'static, J: XcqTypeInfo + 'static, K: XcqTypeInfo + 'static, L: XcqTypeInfo + 'static, M: XcqTypeInfo + 'static, N: XcqTypeInfo + 'static, O: XcqTypeInfo + 'static, P: XcqTypeInfo + 'static>()
    ensures
        <(A,) as XcqTypeInfo>::spec_type_info() == TypeView::Tuple(
            seq![A::spec_type_info()],
        ),
        <(A, B) as XcqTypeInfo>::spec_type_info() == TypeView::Tuple(
            seq![A::spec_type_info(), B::spec_type_info()],
        ),
        <(A, B, C) as XcqTypeInfo>::spec_type_info() == TypeView::Tuple(
            seq![A::spec_type_info(), B::spec_type_info(), C::spec_type_info()],
        ),
        <(A, B, C, D) as XcqTypeInfo>::spec_type_info() == TypeView::Tuple(
            seq![A::spec_type_info(), B::spec_type_info(), C::spec_type_info(), D::spec_type_info()],
        ),
        <(A, B, C, D, E) as XcqTypeInfo>::spec_type_info() == TypeView::Tuple(
            seq![A::spec_type_info(), B::spec_type_info(), C::spec_type_info(), D::spec_type_info(), E::spec_type_info()],
        ),
        <(A, B, C, D, E, F) as XcqTypeInfo>::spec_type_info() == TypeView::Tuple(
            seq![A::spec_type_info(), B::spec_type_info(), C::spec_type_info(), D::spec_type_info(), E::spec_type_info(), F::spec_type_info()],
        ),
        <(A, B, C, D, E, F, G) as XcqTypeInfo>::spec_type_info() == TypeView::Tuple(
            seq![A::spec_type_info(), B::spec_type_info(), C::spec_type_info(), D::spec_type_info(), E::spec_type_info(), F::spec_type_info(), G::spec_type_info()],
        ),
        <(A, B, C, D, E, F, G, H) as XcqTypeInfo>::spec_type_info() == TypeView::Tuple(
            seq![A::spec_type_info(), B::spec_type_info(), C::spec_type_info(), D::spec_type_info(), E::spec_type_info(), F::spec_type_info(), G::spec_type_info(), H::spec_type_info()],
        ),
        <(A, B, C, D, E, F, G, H, I) as XcqTypeInfo>::spec_type_info() == TypeView::Tuple(
            seq![A::spec_type_info(), B::spec_type_info(), C::spec_type_info(), D::spec_type_info(), E::spec_type_info(), F::spec_type_info(), G::spec_type_info(), H::spec_type_info(), I::spec_type_info()],
        ),
        <(A, B, C, D, E, F, G, H, I, J) as XcqTypeInfo>::spec_type_info() == TypeView::Tuple(
            seq![A::spec_type_info(), B::spec_type_info(), C::spec_type_info(), D::spec_type_info(), E::spec_type_info(), F::spec_type_info(), G::spec_type_info(), H::spec_type_info(), I::spec_type_info(), J::spec_type_info()],
        ),
        <(A, B, C, D, E, F, G, H, I, J, K) as XcqTypeInfo>::spec_type_info() == TypeView::Tuple(
            seq![A::spec_type_info(), B::spec_type_info(), C::spec_type_info(), D::spec_type_info(), E::spec_type_info(), F::spec_type_info(), G::spec_type_info(), H::spec_type_info(), I::spec_type_info(), J::spec_type_info(), K::spec_type_info()],
        ),
        <(A, B, C, D, E, F, G, H, I, J, K, L) as XcqTypeInfo>::spec_type_info() == TypeView::Tuple(
            seq![A::spec_type_info(), B::spec_type_info(), C::spec_type_info(), D::spec_type_info(), E::spec_type_info(), F::spec_type_info(), G::spec_type_info(), H::spec_type_info(), I::spec_type_info(), J::spec_type_info(), K::spec_type_info(), L::spec_type_info()],
        ),
        <(A, B, C, D, E, F, G, H, I, J, K, L, M) as XcqTypeInfo>::spec_type_info() == TypeView::Tuple(
            seq![A::spec_type_info(), B::spec_type_info(), C::spec_type_info(), D::spec_type_info(), E::spec_type_info(), F::spec_type_info(), G::spec_type_info(), H::spec_type_info(), I::spec_type_info(), J::spec_type_info(), K::spec_type_info(), L::spec_type_info(), M::spec_type_info()],
        ),
        <(A, B, C, D, E, F, G, H, I, J, K, L, M, N) as XcqTypeInfo>::spec_type_info() == TypeView::Tuple(
            seq![A::spec_type_info(), B::spec_type_info(), C::spec_type_info(), D::spec_type_info(), E::spec_type_info(), F::spec_type_info(), G::spec_type_info(), H::spec_type_info(), I::spec_type_info(), J::spec_type_info(), K::spec_type_info(), L::spec_type_info(), M::spec_type_info(), N::spec_type_info()],
        ),
        <(A, B, C, D, E, F, G, H, I, J, K, L, M, N, O) as XcqTypeInfo>::spec_type_info() == TypeView::Tuple(
            seq![A::spec_type_info(), B::spec_type_info(), C::spec_type_info(), D::spec_type_info(), E::spec_type_info(), F::spec_type_info(), G::spec_type_info(), H::spec_type_info(), I::spec_type_info(), J::spec_type_info(), K::spec_type_info(), L::spec_type_info(), M::spec_type_info(), N::spec_type_info(), O::spec_type_info()],
        ),
        <(A, B, C, D, E, F, G, H, I, J, K, L, M, N, O, P) as XcqTypeInfo>::spec_type_info() == TypeView::Tuple(
            seq![A::spec_type_info(), B::spec_type_info(), C::spec_type_info(), D::spec_type_info(), E::spec_type_info(), F::spec_type_info(), G::spec_type_info(), H::spec_type_info(), I::spec_type_info(), J::spec_type_info(), K::spec_type_info(), L::spec_type_info(), M::spec_type_info(), N::spec_type_info(), O::spec_type_info(), P::spec_type_info()],
        ),
{
}

} // verus!
