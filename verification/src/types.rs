//! The type descriptions exchanged between a host and a query program, and
//! their SCALE encoding.
use vstd::prelude::*;
use crate::codec::{
    compact, encoded_bytes, lemma_compact_prefix_free, lemma_encoded_bytes_prefix_free,
    lemma_split_equal, push_compact_len, push_encoded_bytes,
};

verus! {

/// The primitive types a query can name.
#[derive(PartialEq, Eq, Structural, PartialOrd, Ord, Clone, Copy, Debug, Hash)]
pub enum PrimitiveType {
    Bool,
    Char,
    U8,
    U16,
    U32,
    U64,
    U128,
    I8,
    I16,
    I32,
    I64,
    I128,
    U256,
    I256,
    /// `[u8; 32]`
    H256,
}

/// A named or unnamed field of a composite type.
#[derive(PartialEq, Eq, PartialOrd, Ord, Clone, Debug, Hash)]
pub struct Field {
    pub ident: Vec<u8>,
    pub ty: XcqType,
}

/// A struct type: named fields, unnamed (tuple struct) fields, or none.
#[derive(PartialEq, Eq, PartialOrd, Ord, Clone, Debug, Hash)]
pub struct StructType {
    pub ident: Vec<u8>,
    pub fields: Vec<Field>,
}

/// One variant of an enum type.
#[derive(PartialEq, Eq, PartialOrd, Ord, Clone, Debug, Hash)]
pub struct Variant {
    pub ident: Vec<u8>,
    pub fields: Vec<Field>,
}

/// An enum type, consisting of variants.
#[derive(PartialEq, Eq, PartialOrd, Ord, Clone, Debug, Hash)]
pub struct EnumType {
    pub ident: Vec<u8>,
    pub variants: Vec<Variant>,
}

/// The fields of a composite type as a Rust item declares them.
#[derive(PartialEq, Eq, Clone, Debug)]
pub enum Fields {
    Named(Vec<Field>),
    Unnamed(Vec<XcqType>),
    Unit,
}

/// The description of a type.
#[derive(PartialEq, Eq, PartialOrd, Ord, Debug, Hash)]
pub enum XcqType {
    Primitive(PrimitiveType),
    Struct(StructType),
    Enum(EnumType),
    Tuple(Vec<XcqType>),
    Sequence(Box<XcqType>),
}

impl PrimitiveType {
    /// The position of the variant in the declaration, which is its SCALE index.
    pub open spec fn spec_index(self) -> u8 {
        match self {
            PrimitiveType::Bool => 0,
            PrimitiveType::Char => 1,
            PrimitiveType::U8 => 2,
            PrimitiveType::U16 => 3,
            PrimitiveType::U32 => 4,
            PrimitiveType::U64 => 5,
            PrimitiveType::U128 => 6,
            PrimitiveType::I8 => 7,
            PrimitiveType::I16 => 8,
            PrimitiveType::I32 => 9,
            PrimitiveType::I64 => 10,
            PrimitiveType::I128 => 11,
            PrimitiveType::U256 => 12,
            PrimitiveType::I256 => 13,
            PrimitiveType::H256 => 14,
        }
    }

    /// The SCALE index of the variant.
    pub fn index(&self) -> (r: u8)
        ensures
            r == self.spec_index(),
    {
        match self {
            PrimitiveType::Bool => 0,
            PrimitiveType::Char => 1,
            PrimitiveType::U8 => 2,
            PrimitiveType::U16 => 3,
            PrimitiveType::U32 => 4,
            PrimitiveType::U64 => 5,
            PrimitiveType::U128 => 6,
            PrimitiveType::I8 => 7,
            PrimitiveType::I16 => 8,
            PrimitiveType::I32 => 9,
            PrimitiveType::I64 => 10,
            PrimitiveType::I128 => 11,
            PrimitiveType::U256 => 12,
            PrimitiveType::I256 => 13,
            PrimitiveType::H256 => 14,
        }
    }
}

/// The mathematical value of a field.
pub struct FieldView {
    pub ident: Seq<u8>,
    pub ty: TypeView,
}

/// The mathematical value of a variant.
pub struct VariantView {
    pub ident: Seq<u8>,
    pub fields: Seq<FieldView>,
}

/// The mathematical value of a type description: the same tree, with
/// sequences in place of vectors.
pub enum TypeView {
    Primitive(PrimitiveType),
    Struct { ident: Seq<u8>, fields: Seq<FieldView> },
    Enum { ident: Seq<u8>, variants: Seq<VariantView> },
    Tuple(Seq<TypeView>),
    Sequence(Box<TypeView>),
}

pub open spec fn view_type(t: XcqType) -> TypeView
    decreases t,
{
    match t {
        XcqType::Primitive(p) => TypeView::Primitive(p),
        XcqType::Struct(s) => TypeView::Struct { ident: s.ident@, fields: view_fields(s.fields@) },
        XcqType::Enum(e) => TypeView::Enum { ident: e.ident@, variants: view_variants(e.variants@) },
        XcqType::Tuple(ts) => TypeView::Tuple(view_types(ts@)),
        XcqType::Sequence(b) => TypeView::Sequence(Box::new(view_type(*b))),
    }
}

pub open spec fn view_types(ts: Seq<XcqType>) -> Seq<TypeView>
    decreases ts,
{
    if ts.len() == 0 {
        Seq::empty()
    } else {
        view_types(ts.subrange(0, ts.len() - 1)).push(view_type(ts[ts.len() - 1]))
    }
}

pub open spec fn view_fields(fs: Seq<Field>) -> Seq<FieldView>
    decreases fs,
{
    if fs.len() == 0 {
        Seq::empty()
    } else {
        view_fields(fs.subrange(0, fs.len() - 1)).push(
            FieldView { ident: fs[fs.len() - 1].ident@, ty: view_type(fs[fs.len() - 1].ty) },
        )
    }
}

pub open spec fn view_variants(vs: Seq<Variant>) -> Seq<VariantView>
    decreases vs,
{
    if vs.len() == 0 {
        Seq::empty()
    } else {
        view_variants(vs.subrange(0, vs.len() - 1)).push(
            VariantView { ident: vs[vs.len() - 1].ident@, fields: view_fields(vs[vs.len() - 1].fields@) },
        )
    }
}

impl View for XcqType {
    type V = TypeView;

    open spec fn view(&self) -> TypeView {
        view_type(*self)
    }
}

impl View for Field {
    type V = FieldView;

    open spec fn view(&self) -> FieldView {
        FieldView { ident: self.ident@, ty: view_type(self.ty) }
    }
}

impl View for Variant {
    type V = VariantView;

    open spec fn view(&self) -> VariantView {
        VariantView { ident: self.ident@, fields: view_fields(self.fields@) }
    }
}

impl View for StructType {
    type V = TypeView;

    open spec fn view(&self) -> TypeView {
        TypeView::Struct { ident: self.ident@, fields: view_fields(self.fields@) }
    }
}

impl View for EnumType {
    type V = TypeView;

    open spec fn view(&self) -> TypeView {
        TypeView::Enum { ident: self.ident@, variants: view_variants(self.variants@) }
    }
}

pub proof fn lemma_view_types(ts: Seq<XcqType>)
    ensures
        view_types(ts).len() == ts.len(),
        forall|i: int| 0 <= i < ts.len() ==> #[trigger] view_types(ts)[i] == view_type(ts[i]),
    decreases ts.len(),
{
    if ts.len() > 0 {
        lemma_view_types(ts.subrange(0, ts.len() - 1));
    }
}

pub proof fn lemma_view_fields(fs: Seq<Field>)
    ensures
        view_fields(fs).len() == fs.len(),
        forall|i: int| 0 <= i < fs.len() ==> #[trigger] view_fields(fs)[i] == fs[i]@,
    decreases fs.len(),
{
    if fs.len() > 0 {
        lemma_view_fields(fs.subrange(0, fs.len() - 1));
    }
}

pub proof fn lemma_view_variants(vs: Seq<Variant>)
    ensures
        view_variants(vs).len() == vs.len(),
        forall|i: int| 0 <= i < vs.len() ==> #[trigger] view_variants(vs)[i] == vs[i]@,
    decreases vs.len(),
{
    if vs.len() > 0 {
        lemma_view_variants(vs.subrange(0, vs.len() - 1));
    }
}

/// Every collection inside the type has at most `u32::MAX` elements, as the
/// SCALE codec requires of the collections it encodes.
pub open spec fn type_wf(t: TypeView) -> bool
    decreases t,
{
    match t {
        TypeView::Primitive(_) => true,
        TypeView::Struct { ident, fields } => ident.len() <= u32::MAX && fields.len() <= u32::MAX
            && fields_wf(fields),
        TypeView::Enum { ident, variants } => ident.len() <= u32::MAX && variants.len()
            <= u32::MAX && variants_wf(variants),
        TypeView::Tuple(ts) => ts.len() <= u32::MAX && types_wf(ts),
        TypeView::Sequence(b) => type_wf(*b),
    }
}

pub open spec fn types_wf(ts: Seq<TypeView>) -> bool
    decreases ts,
{
    if ts.len() == 0 {
        true
    } else {
        types_wf(ts.subrange(0, ts.len() - 1)) && type_wf(ts[ts.len() - 1])
    }
}

pub open spec fn field_wf(f: FieldView) -> bool
    decreases f,
{
    f.ident.len() <= u32::MAX && type_wf(f.ty)
}

pub open spec fn fields_wf(fs: Seq<FieldView>) -> bool
    decreases fs,
{
    if fs.len() == 0 {
        true
    } else {
        fields_wf(fs.subrange(0, fs.len() - 1)) && field_wf(fs[fs.len() - 1])
    }
}

pub open spec fn variant_wf(v: VariantView) -> bool
    decreases v,
{
    v.ident.len() <= u32::MAX && v.fields.len() <= u32::MAX && fields_wf(v.fields)
}

pub open spec fn variants_wf(vs: Seq<VariantView>) -> bool
    decreases vs,
{
    if vs.len() == 0 {
        true
    } else {
        variants_wf(vs.subrange(0, vs.len() - 1)) && variant_wf(vs[vs.len() - 1])
    }
}

proof fn lemma_types_wf_index(ts: Seq<TypeView>, i: int)
    requires
        types_wf(ts),
        0 <= i < ts.len(),
    ensures
        type_wf(ts[i]),
    decreases ts.len(),
{
    if i < ts.len() - 1 {
        let p = ts.subrange(0, ts.len() - 1);
        assert(p[i] == ts[i]);
        lemma_types_wf_index(p, i);
    }
}

proof fn lemma_fields_wf_index(fs: Seq<FieldView>, i: int)
    requires
        fields_wf(fs),
        0 <= i < fs.len(),
    ensures
        field_wf(fs[i]),
    decreases fs.len(),
{
    if i < fs.len() - 1 {
        let p = fs.subrange(0, fs.len() - 1);
        assert(p[i] == fs[i]);
        lemma_fields_wf_index(p, i);
    }
}

proof fn lemma_variants_wf_index(vs: Seq<VariantView>, i: int)
    requires
        variants_wf(vs),
        0 <= i < vs.len(),
    ensures
        variant_wf(vs[i]),
    decreases vs.len(),
{
    if i < vs.len() - 1 {
        let p = vs.subrange(0, vs.len() - 1);
        assert(p[i] == vs[i]);
        lemma_variants_wf_index(p, i);
    }
}

/// The SCALE encoding of a type description: the variant index, then the
/// fields of the variant in order; a collection is its compact length
/// followed by its elements.
pub open spec fn type_encoding(t: TypeView) -> Seq<u8>
    decreases t,
{
    match t {
        TypeView::Primitive(p) => seq![0u8, p.spec_index()],
        TypeView::Struct { ident, fields } => seq![1u8] + encoded_bytes(ident) + compact(fields.len())
            + fields_encoding(fields),
        TypeView::Enum { ident, variants } => seq![2u8] + encoded_bytes(ident) + compact(
            variants.len(),
        ) + variants_encoding(variants),
        TypeView::Tuple(ts) => seq![3u8] + compact(ts.len()) + types_encoding(ts),
        TypeView::Sequence(b) => seq![4u8] + type_encoding(*b),
    }
}

/// The encodings of the elements, one after the other.
pub open spec fn types_encoding(ts: Seq<TypeView>) -> Seq<u8>
    decreases ts,
{
    if ts.len() == 0 {
        Seq::empty()
    } else {
        types_encoding(ts.subrange(0, ts.len() - 1)) + type_encoding(ts[ts.len() - 1])
    }
}

/// The encoding of one field: its name, then its type.
pub open spec fn field_encoding(f: FieldView) -> Seq<u8>
    decreases f,
{
    encoded_bytes(f.ident) + type_encoding(f.ty)
}

/// The encodings of the fields, one after the other.
pub open spec fn fields_encoding(fs: Seq<FieldView>) -> Seq<u8>
    decreases fs,
{
    if fs.len() == 0 {
        Seq::empty()
    } else {
        fields_encoding(fs.subrange(0, fs.len() - 1)) + field_encoding(fs[fs.len() - 1])
    }
}

/// The encoding of one variant: its name, then its fields.
pub open spec fn variant_encoding(v: VariantView) -> Seq<u8>
    decreases v,
{
    encoded_bytes(v.ident) + compact(v.fields.len()) + fields_encoding(v.fields)
}

/// The encodings of the variants, one after the other.
pub open spec fn variants_encoding(vs: Seq<VariantView>) -> Seq<u8>
    decreases vs,
{
    if vs.len() == 0 {
        Seq::empty()
    } else {
        variants_encoding(vs.subrange(0, vs.len() - 1)) + variant_encoding(vs[vs.len() - 1])
    }
}

fn copy_bytes(b: &Vec<u8>) -> (r: Vec<u8>)
    ensures
        r@ == b@,
{
    let r = b.clone();
    assert(r@ =~= b@);
    r
}

impl XcqType {
    /// A copy of the description, equal to it.
    pub fn deep_copy(&self) -> (r: XcqType)
        ensures
            r@ == self@,
        decreases self,
    {
        match self {
            XcqType::Primitive(p) => XcqType::Primitive(*p),
            XcqType::Struct(s) => XcqType::Struct(
                StructType { ident: copy_bytes(&s.ident), fields: copy_fields(&s.fields) },
            ),
            XcqType::Enum(e) => XcqType::Enum(
                EnumType { ident: copy_bytes(&e.ident), variants: copy_variants(&e.variants) },
            ),
            XcqType::Tuple(ts) => XcqType::Tuple(copy_types(ts)),
            XcqType::Sequence(b) => XcqType::Sequence(Box::new(b.deep_copy())),
        }
    }
}

fn copy_types(ts: &Vec<XcqType>) -> (r: Vec<XcqType>)
    ensures
        view_types(r@) == view_types(ts@),
    decreases ts,
{
    let mut r: Vec<XcqType> = Vec::new();
    for i in 0..ts.len()
        invariant
            r@.len() == i,
            view_types(r@) == view_types(ts@.take(i as int)),
    {
        assert(decreases_to!(ts => ts@[i as int]));
        let t = ts[i].deep_copy();
        let ghost prev = r@;
        r.push(t);
        assert(r@.subrange(0, i as int) =~= prev);
        assert(ts@.take(i + 1).subrange(0, i as int) =~= ts@.take(i as int));
    }
    assert(ts@.take(ts.len() as int) =~= ts@);
    r
}

fn copy_fields(fs: &Vec<Field>) -> (r: Vec<Field>)
    ensures
        view_fields(r@) == view_fields(fs@),
    decreases fs,
{
    let mut r: Vec<Field> = Vec::new();
    for i in 0..fs.len()
        invariant
            r@.len() == i,
            view_fields(r@) == view_fields(fs@.take(i as int)),
    {
        assert(decreases_to!(fs => fs@[i as int].ty));
        let f = Field { ident: copy_bytes(&fs[i].ident), ty: fs[i].ty.deep_copy() };
        let ghost prev = r@;
        r.push(f);
        assert(r@.subrange(0, i as int) =~= prev);
        assert(fs@.take(i + 1).subrange(0, i as int) =~= fs@.take(i as int));
    }
    assert(fs@.take(fs.len() as int) =~= fs@);
    r
}

fn copy_variants(vs: &Vec<Variant>) -> (r: Vec<Variant>)
    ensures
        view_variants(r@) == view_variants(vs@),
    decreases vs,
{
    let mut r: Vec<Variant> = Vec::new();
    for i in 0..vs.len()
        invariant
            r@.len() == i,
            view_variants(r@) == view_variants(vs@.take(i as int)),
    {
        assert(decreases_to!(vs => vs@[i as int].fields));
        let v = Variant { ident: copy_bytes(&vs[i].ident), fields: copy_fields(&vs[i].fields) };
        let ghost prev = r@;
        r.push(v);
        assert(r@.subrange(0, i as int) =~= prev);
        assert(vs@.take(i + 1).subrange(0, i as int) =~= vs@.take(i as int));
    }
    assert(vs@.take(vs.len() as int) =~= vs@);
    r
}

proof fn lemma_primitive_index_injective(p: PrimitiveType, q: PrimitiveType)
    requires
        p.spec_index() == q.spec_index(),
    ensures
        p == q,
{
}

#[verifier::spinoff_prover]
#[verifier::rlimit(60)]
proof fn lemma_type_prefix_free(a: TypeView, b: TypeView, r1: Seq<u8>, r2: Seq<u8>)
    requires
        type_wf(a),
        type_wf(b),
        type_encoding(a) + r1 == type_encoding(b) + r2,
    ensures
        a == b,
        r1 == r2,
    decreases a,
{
    let s = type_encoding(a) + r1;
    assert(s[0] == type_encoding(a)[0]);
    assert(s[0] == type_encoding(b)[0]);
    match (a, b) {
        (TypeView::Primitive(p), TypeView::Primitive(q)) => {
            lemma_split_equal(type_encoding(a), r1, type_encoding(b), r2);
            assert(type_encoding(a)[1] == type_encoding(b)[1]);
            lemma_primitive_index_injective(p, q);
        },
        (TypeView::Struct { ident: ia, fields: fa }, TypeView::Struct { ident: ib, fields: fb }) => {
            let ra = compact(fa.len()) + fields_encoding(fa) + r1;
            let rb = compact(fb.len()) + fields_encoding(fb) + r2;
            assert(s =~= seq![1u8] + (encoded_bytes(ia) + ra));
            assert(type_encoding(b) + r2 =~= seq![1u8] + (encoded_bytes(ib) + rb));
            lemma_split_equal(seq![1u8], encoded_bytes(ia) + ra, seq![1u8], encoded_bytes(ib) + rb);
            lemma_encoded_bytes_prefix_free(ia, ib, ra, rb);
            assert(ra =~= compact(fa.len()) + (fields_encoding(fa) + r1));
            assert(rb =~= compact(fb.len()) + (fields_encoding(fb) + r2));
            lemma_compact_prefix_free(fa.len(), fb.len(), fields_encoding(fa) + r1, fields_encoding(fb) + r2);
            lemma_fields_prefix_free(fa, fb, r1, r2);
        },
        (TypeView::Enum { ident: ia, variants: va }, TypeView::Enum { ident: ib, variants: vb }) => {
            let ra = compact(va.len()) + variants_encoding(va) + r1;
            let rb = compact(vb.len()) + variants_encoding(vb) + r2;
            assert(s =~= seq![2u8] + (encoded_bytes(ia) + ra));
            assert(type_encoding(b) + r2 =~= seq![2u8] + (encoded_bytes(ib) + rb));
            lemma_split_equal(seq![2u8], encoded_bytes(ia) + ra, seq![2u8], encoded_bytes(ib) + rb);
            lemma_encoded_bytes_prefix_free(ia, ib, ra, rb);
            assert(ra =~= compact(va.len()) + (variants_encoding(va) + r1));
            assert(rb =~= compact(vb.len()) + (variants_encoding(vb) + r2));
            lemma_compact_prefix_free(va.len(), vb.len(), variants_encoding(va) + r1, variants_encoding(vb) + r2);
            lemma_variants_prefix_free(va, vb, r1, r2);
        },
        (TypeView::Tuple(ta), TypeView::Tuple(tb)) => {
            assert(s =~= seq![3u8] + (compact(ta.len()) + (types_encoding(ta) + r1)));
            assert(type_encoding(b) + r2 =~= seq![3u8] + (compact(tb.len()) + (types_encoding(tb) + r2)));
            lemma_split_equal(
                seq![3u8],
                compact(ta.len()) + (types_encoding(ta) + r1),
                seq![3u8],
                compact(tb.len()) + (types_encoding(tb) + r2),
            );
            lemma_compact_prefix_free(ta.len(), tb.len(), types_encoding(ta) + r1, types_encoding(tb) + r2);
            lemma_types_prefix_free(ta, tb, r1, r2);
        },
        (TypeView::Sequence(ea), TypeView::Sequence(eb)) => {
            assert(s =~= seq![4u8] + (type_encoding(*ea) + r1));
            assert(type_encoding(b) + r2 =~= seq![4u8] + (type_encoding(*eb) + r2));
            lemma_split_equal(seq![4u8], type_encoding(*ea) + r1, seq![4u8], type_encoding(*eb) + r2);
            lemma_type_prefix_free(*ea, *eb, r1, r2);
        },
        _ => {
            assert(false);
        },
    }
}

proof fn lemma_types_prefix_free(ts: Seq<TypeView>, us: Seq<TypeView>, r1: Seq<u8>, r2: Seq<u8>)
    requires
        types_wf(ts),
        types_wf(us),
        ts.len() == us.len(),
        types_encoding(ts) + r1 == types_encoding(us) + r2,
    ensures
        ts == us,
        r1 == r2,
    decreases ts,
{
    if ts.len() == 0 {
        assert(r1 =~= types_encoding(ts) + r1);
        assert(r2 =~= types_encoding(us) + r2);
        assert(ts =~= us);
    } else {
        let n = ts.len() - 1;
        let tp = ts.subrange(0, n);
        let up = us.subrange(0, n);
        assert(types_encoding(ts) + r1 =~= types_encoding(tp) + (type_encoding(ts[n]) + r1));
        assert(types_encoding(us) + r2 =~= types_encoding(up) + (type_encoding(us[n]) + r2));
        lemma_types_prefix_free(tp, up, type_encoding(ts[n]) + r1, type_encoding(us[n]) + r2);
        lemma_type_prefix_free(ts[n], us[n], r1, r2);
        assert(ts =~= us) by {
            assert forall|i: int| 0 <= i < ts.len() implies ts[i] == us[i] by {
                if i < n {
                    assert(tp[i] == up[i]);
                }
            }
        }
    }
}

proof fn lemma_field_prefix_free(f: FieldView, g: FieldView, r1: Seq<u8>, r2: Seq<u8>)
    requires
        field_wf(f),
        field_wf(g),
        field_encoding(f) + r1 == field_encoding(g) + r2,
    ensures
        f == g,
        r1 == r2,
    decreases f,
{
    assert(field_encoding(f) + r1 =~= encoded_bytes(f.ident) + (type_encoding(f.ty) + r1));
    assert(field_encoding(g) + r2 =~= encoded_bytes(g.ident) + (type_encoding(g.ty) + r2));
    lemma_encoded_bytes_prefix_free(f.ident, g.ident, type_encoding(f.ty) + r1, type_encoding(g.ty) + r2);
    lemma_type_prefix_free(f.ty, g.ty, r1, r2);
}

proof fn lemma_fields_prefix_free(fs: Seq<FieldView>, gs: Seq<FieldView>, r1: Seq<u8>, r2: Seq<u8>)
    requires
        fields_wf(fs),
        fields_wf(gs),
        fs.len() == gs.len(),
        fields_encoding(fs) + r1 == fields_encoding(gs) + r2,
    ensures
        fs == gs,
        r1 == r2,
    decreases fs,
{
    if fs.len() == 0 {
        assert(r1 =~= fields_encoding(fs) + r1);
        assert(r2 =~= fields_encoding(gs) + r2);
        assert(fs =~= gs);
    } else {
        let n = fs.len() - 1;
        let fp = fs.subrange(0, n);
        let gp = gs.subrange(0, n);
        assert(fields_encoding(fs) + r1 =~= fields_encoding(fp) + (field_encoding(fs[n]) + r1));
        assert(fields_encoding(gs) + r2 =~= fields_encoding(gp) + (field_encoding(gs[n]) + r2));
        lemma_fields_prefix_free(fp, gp, field_encoding(fs[n]) + r1, field_encoding(gs[n]) + r2);
        lemma_field_prefix_free(fs[n], gs[n], r1, r2);
        assert(fs =~= gs) by {
            assert forall|i: int| 0 <= i < fs.len() implies fs[i] == gs[i] by {
                if i < n {
                    assert(fp[i] == gp[i]);
                }
            }
        }
    }
}

proof fn lemma_variant_prefix_free(v: VariantView, w: VariantView, r1: Seq<u8>, r2: Seq<u8>)
    requires
        variant_wf(v),
        variant_wf(w),
        variant_encoding(v) + r1 == variant_encoding(w) + r2,
    ensures
        v == w,
        r1 == r2,
    decreases v,
{
    let rv = compact(v.fields.len()) + (fields_encoding(v.fields) + r1);
    let rw = compact(w.fields.len()) + (fields_encoding(w.fields) + r2);
    assert(variant_encoding(v) + r1 =~= encoded_bytes(v.ident) + rv);
    assert(variant_encoding(w) + r2 =~= encoded_bytes(w.ident) + rw);
    lemma_encoded_bytes_prefix_free(v.ident, w.ident, rv, rw);
    lemma_compact_prefix_free(v.fields.len(), w.fields.len(), fields_encoding(v.fields) + r1, fields_encoding(w.fields) + r2);
    lemma_fields_prefix_free(v.fields, w.fields, r1, r2);
}

proof fn lemma_variants_prefix_free(vs: Seq<VariantView>, ws: Seq<VariantView>, r1: Seq<u8>, r2: Seq<u8>)
    requires
        variants_wf(vs),
        variants_wf(ws),
        vs.len() == ws.len(),
        variants_encoding(vs) + r1 == variants_encoding(ws) + r2,
    ensures
        vs == ws,
        r1 == r2,
    decreases vs,
{
    if vs.len() == 0 {
        assert(r1 =~= variants_encoding(vs) + r1);
        assert(r2 =~= variants_encoding(ws) + r2);
        assert(vs =~= ws);
    } else {
        let n = vs.len() - 1;
        let vp = vs.subrange(0, n);
        let wp = ws.subrange(0, n);
        assert(variants_encoding(vs) + r1 =~= variants_encoding(vp) + (variant_encoding(vs[n]) + r1));
        assert(variants_encoding(ws) + r2 =~= variants_encoding(wp) + (variant_encoding(ws[n]) + r2));
        lemma_variants_prefix_free(vp, wp, variant_encoding(vs[n]) + r1, variant_encoding(ws[n]) + r2);
        lemma_variant_prefix_free(vs[n], ws[n], r1, r2);
        assert(vs =~= ws) by {
            assert forall|i: int| 0 <= i < vs.len() implies vs[i] == ws[i] by {
                if i < n {
                    assert(vp[i] == wp[i]);
                }
            }
        }
    }
}

/// Law: the encoding of a type description is unambiguous. Two well-formed
/// descriptions have the same SCALE encoding only if they are the same
/// description, so comparing encoded bytes compares types.
pub proof fn law_type_encoding_injective(a: TypeView, b: TypeView)
    requires
        type_wf(a),
        type_wf(b),
        type_encoding(a) == type_encoding(b),
    ensures
        a == b,
{
    assert(type_encoding(a) + Seq::<u8>::empty() =~= type_encoding(b) + Seq::<u8>::empty());
    lemma_type_prefix_free(a, b, Seq::empty(), Seq::empty());
}

impl XcqType {
    /// Appends the SCALE encoding of the description to `out`.
    pub fn encode_to(&self, out: &mut Vec<u8>)
        requires
            type_wf(self@),
        ensures
            final(out)@ == old(out)@ + type_encoding(self@),
        decreases self,
    {
        let ghost start = out@;
        match self {
            XcqType::Primitive(p) => {
                out.push(0u8);
                out.push(p.index());
                assert(out@ =~= start + type_encoding(self@));
            },
            XcqType::Struct(s) => {
                out.push(1u8);
                push_encoded_bytes(out, s.ident.as_slice());
                proof {
                    lemma_view_fields(s.fields@);
                    assert(self@ == TypeView::Struct { ident: s.ident@, fields: view_fields(s.fields@) });
                }
                push_compact_len(out, s.fields.len());
                encode_fields_to(&s.fields, out);
                assert(out@ =~= start + type_encoding(self@));
            },
            XcqType::Enum(e) => {
                out.push(2u8);
                push_encoded_bytes(out, e.ident.as_slice());
                proof {
                    lemma_view_variants(e.variants@);
                    assert(self@ == TypeView::Enum {
                        ident: e.ident@,
                        variants: view_variants(e.variants@),
                    });
                }
                push_compact_len(out, e.variants.len());
                encode_variants_to(&e.variants, out);
                assert(out@ =~= start + type_encoding(self@));
            },
            XcqType::Tuple(ts) => {
                out.push(3u8);
                proof {
                    lemma_view_types(ts@);
                    assert(self@ == TypeView::Tuple(view_types(ts@)));
                }
                push_compact_len(out, ts.len());
                encode_types_to(ts, out);
                assert(out@ =~= start + type_encoding(self@));
            },
            XcqType::Sequence(b) => {
                out.push(4u8);
                b.encode_to(out);
                assert(out@ =~= start + type_encoding(self@));
            },
        }
    }

    /// The SCALE encoding of the description.
    pub fn encode(&self) -> (r: Vec<u8>)
        requires
            type_wf(self@),
        ensures
            r@ == type_encoding(self@),
    {
        let mut out: Vec<u8> = Vec::new();
        self.encode_to(&mut out);
        assert(out@ =~= type_encoding(self@));
        out
    }
}

fn encode_types_to(ts: &Vec<XcqType>, out: &mut Vec<u8>)
    requires
        types_wf(view_types(ts@)),
    ensures
        final(out)@ == old(out)@ + types_encoding(view_types(ts@)),
    decreases ts,
{
    let ghost start = out@;
    proof {
        lemma_view_types(ts@);
    }
    for i in 0..ts.len()
        invariant
            ts@.len() == view_types(ts@).len(),
            types_wf(view_types(ts@)),
            forall|j: int| 0 <= j < ts@.len() ==> #[trigger] view_types(ts@)[j] == view_type(ts@[j]),
            out@ == start + types_encoding(view_types(ts@.take(i as int))),
    {
        assert(decreases_to!(ts => ts@[i as int]));
        proof {
            lemma_types_wf_index(view_types(ts@), i as int);
            assert(view_types(ts@)[i as int] == view_type(ts@[i as int]));
        }
        ts[i].encode_to(out);
        proof {
            let a = ts@.take(i + 1);
            assert(a.subrange(0, i as int) =~= ts@.take(i as int));
            lemma_view_types(a);
            let va = view_types(a);
            assert(va.subrange(0, i as int) =~= view_types(ts@.take(i as int)));
            assert(va[i as int] == view_type(ts@[i as int]));
            assert(types_encoding(va) == types_encoding(va.subrange(0, i as int)) + type_encoding(
                va[i as int],
            ));
            assert(out@ =~= start + types_encoding(va));
        }
    }
    assert(ts@.take(ts.len() as int) =~= ts@);
}

fn encode_fields_to(fs: &Vec<Field>, out: &mut Vec<u8>)
    requires
        fields_wf(view_fields(fs@)),
    ensures
        final(out)@ == old(out)@ + fields_encoding(view_fields(fs@)),
    decreases fs,
{
    let ghost start = out@;
    proof {
        lemma_view_fields(fs@);
    }
    for i in 0..fs.len()
        invariant
            fs@.len() == view_fields(fs@).len(),
            fields_wf(view_fields(fs@)),
            forall|j: int| 0 <= j < fs@.len() ==> #[trigger] view_fields(fs@)[j] == fs@[j]@,
            out@ == start + fields_encoding(view_fields(fs@.take(i as int))),
    {
        assert(decreases_to!(fs => fs@[i as int].ty));
        proof {
            lemma_fields_wf_index(view_fields(fs@), i as int);
            assert(view_fields(fs@)[i as int] == fs@[i as int]@);
        }
        push_encoded_bytes(out, fs[i].ident.as_slice());
        fs[i].ty.encode_to(out);
        proof {
            let a = fs@.take(i + 1);
            assert(a.subrange(0, i as int) =~= fs@.take(i as int));
            lemma_view_fields(a);
            let va = view_fields(a);
            assert(va.subrange(0, i as int) =~= view_fields(fs@.take(i as int)));
            assert(va[i as int] == fs@[i as int]@);
            assert(field_encoding(va[i as int]) == encoded_bytes(fs@[i as int].ident@) + type_encoding(
                fs@[i as int].ty@,
            ));
            assert(fields_encoding(va) == fields_encoding(va.subrange(0, i as int)) + field_encoding(
                va[i as int],
            ));
            assert(out@ =~= start + fields_encoding(va));
        }
    }
    assert(fs@.take(fs.len() as int) =~= fs@);
}

fn encode_variants_to(vs: &Vec<Variant>, out: &mut Vec<u8>)
    requires
        variants_wf(view_variants(vs@)),
    ensures
        final(out)@ == old(out)@ + variants_encoding(view_variants(vs@)),
    decreases vs,
{
    let ghost start = out@;
    proof {
        lemma_view_variants(vs@);
    }
    for i in 0..vs.len()
        invariant
            vs@.len() == view_variants(vs@).len(),
            variants_wf(view_variants(vs@)),
            forall|j: int| 0 <= j < vs@.len() ==> #[trigger] view_variants(vs@)[j] == vs@[j]@,
            out@ == start + variants_encoding(view_variants(vs@.take(i as int))),
    {
        assert(decreases_to!(vs => vs@[i as int].fields));
        proof {
            lemma_variants_wf_index(view_variants(vs@), i as int);
            assert(view_variants(vs@)[i as int] == vs@[i as int]@);
            lemma_view_fields(vs@[i as int].fields@);
        }
        push_encoded_bytes(out, vs[i].ident.as_slice());
        push_compact_len(out, vs[i].fields.len());
        encode_fields_to(&vs[i].fields, out);
        proof {
            let a = vs@.take(i + 1);
            assert(a.subrange(0, i as int) =~= vs@.take(i as int));
            lemma_view_variants(a);
            let va = view_variants(a);
            assert(va.subrange(0, i as int) =~= view_variants(vs@.take(i as int)));
            assert(va[i as int] == vs@[i as int]@);
            assert(variant_encoding(va[i as int]) == encoded_bytes(vs@[i as int].ident@) + compact(
                vs@[i as int]@.fields.len(),
            ) + fields_encoding(vs@[i as int]@.fields));
            assert(variants_encoding(va) == variants_encoding(va.subrange(0, i as int))
                + variant_encoding(va[i as int]));
            assert(out@ =~= start + variants_encoding(va));
        }
    }
    assert(vs@.take(vs.len() as int) =~= vs@);
}

impl Clone for XcqType {
    fn clone(&self) -> (r: Self)
        ensures
            r@ == self@,
    {
        self.deep_copy()
    }
}

proof fn lemma_types_split(a: Seq<TypeView>, b: Seq<TypeView>)
    ensures
        types_encoding(a + b) == types_encoding(a) + types_encoding(b),
    decreases b.len(),
{
    if b.len() == 0 {
        assert(a + b =~= a);
        assert(types_encoding(a) + types_encoding(b) =~= types_encoding(a));
    } else {
        let c = a + b;
        lemma_types_split(a, b.subrange(0, b.len() - 1));
        assert(c.subrange(0, c.len() - 1) =~= a + b.subrange(0, b.len() - 1));
        assert(c[c.len() - 1] == b[b.len() - 1]);
        assert(types_encoding(c) =~= types_encoding(a) + types_encoding(b));
    }
}

/// Law: the encoding of a tuple's element types is their encodings in
/// their order: that of `a + b` is that of `a` followed by that of `b`.
pub proof fn law_types_encoding_in_order(a: Seq<TypeView>, b: Seq<TypeView>, t: TypeView)
    ensures
        types_encoding(a + b) == types_encoding(a) + types_encoding(b),
        types_encoding(seq![t]) == type_encoding(t),
        types_encoding(Seq::<TypeView>::empty()) == Seq::<u8>::empty(),
        types_encoding(seq![t] + a) == type_encoding(t) + types_encoding(a),
{
    lemma_types_split(a, b);
    let one = seq![t];
    assert(one.subrange(0, 0) =~= Seq::<TypeView>::empty());
    assert(one[0] == t);
    assert(types_encoding(one.subrange(0, 0)) == Seq::<u8>::empty());
    assert(Seq::<u8>::empty() + type_encoding(t) =~= type_encoding(t));
    assert(types_encoding(one) == types_encoding(one.subrange(0, 0)) + type_encoding(t));
    lemma_types_split(one, a);
}

proof fn lemma_fields_split(a: Seq<FieldView>, b: Seq<FieldView>)
    ensures
        fields_encoding(a + b) == fields_encoding(a) + fields_encoding(b),
    decreases b.len(),
{
    if b.len() == 0 {
        assert(a + b =~= a);
        assert(fields_encoding(a) + fields_encoding(b) =~= fields_encoding(a));
    } else {
        let c = a + b;
        lemma_fields_split(a, b.subrange(0, b.len() - 1));
        assert(c.subrange(0, c.len() - 1) =~= a + b.subrange(0, b.len() - 1));
        assert(c[c.len() - 1] == b[b.len() - 1]);
        assert(fields_encoding(c) =~= fields_encoding(a) + fields_encoding(b));
    }
}

/// Law: the encoding of a list of fields is their encodings in their
/// order: that of `a + b` is that of `a` followed by that of `b`.
pub proof fn law_fields_encoding_in_order(a: Seq<FieldView>, b: Seq<FieldView>, f: FieldView)
    ensures
        fields_encoding(a + b) == fields_encoding(a) + fields_encoding(b),
        fields_encoding(seq![f]) == field_encoding(f),
        fields_encoding(Seq::<FieldView>::empty()) == Seq::<u8>::empty(),
        fields_encoding(seq![f] + a) == field_encoding(f) + fields_encoding(a),
{
    lemma_fields_split(a, b);
    let one = seq![f];
    assert(one.subrange(0, 0) =~= Seq::<FieldView>::empty());
    assert(one[0] == f);
    assert(fields_encoding(one.subrange(0, 0)) == Seq::<u8>::empty());
    assert(Seq::<u8>::empty() + field_encoding(f) =~= field_encoding(f));
    assert(fields_encoding(one) == fields_encoding(one.subrange(0, 0)) + field_encoding(f));
    lemma_fields_split(one, a);
}

proof fn lemma_variants_split(a: Seq<VariantView>, b: Seq<VariantView>)
    ensures
        variants_encoding(a + b) == variants_encoding(a) + variants_encoding(b),
    decreases b.len(),
{
    if b.len() == 0 {
        assert(a + b =~= a);
        assert(variants_encoding(a) + variants_encoding(b) =~= variants_encoding(a));
    } else {
        let c = a + b;
        lemma_variants_split(a, b.subrange(0, b.len() - 1));
        assert(c.subrange(0, c.len() - 1) =~= a + b.subrange(0, b.len() - 1));
        assert(c[c.len() - 1] == b[b.len() - 1]);
        assert(variants_encoding(c) =~= variants_encoding(a) + variants_encoding(b));
    }
}

/// Law: the encoding of a list of variants is their encodings in their
/// order: that of `a + b` is that of `a` followed by that of `b`.
pub proof fn law_variants_encoding_in_order(a: Seq<VariantView>, b: Seq<VariantView>, v: VariantView)
    ensures
        variants_encoding(a + b) == variants_encoding(a) + variants_encoding(b),
        variants_encoding(seq![v]) == variant_encoding(v),
        variants_encoding(Seq::<VariantView>::empty()) == Seq::<u8>::empty(),
        variants_encoding(seq![v] + a) == variant_encoding(v) + variants_encoding(a),
{
    lemma_variants_split(a, b);
    let one = seq![v];
    assert(one.subrange(0, 0) =~= Seq::<VariantView>::empty());
    assert(one[0] == v);
    assert(variants_encoding(one.subrange(0, 0)) == Seq::<u8>::empty());
    assert(Seq::<u8>::empty() + variant_encoding(v) =~= variant_encoding(v));
    assert(variants_encoding(one) == variants_encoding(one.subrange(0, 0)) + variant_encoding(v));
    lemma_variants_split(one, a);
}

} // verus!
