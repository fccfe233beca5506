//! The parts of Rust syntax that the code generators read: types, paths,
//! function signatures and the items of a trait. A parser builds them; the
//! generators decide on them; the emitted code is written from them.
use vstd::prelude::*;

verus! {

/// Generic arguments after a path segment.
pub enum ArgsModel {
    /// No arguments: `Vec`.
    Absent,
    /// `<...>`.
    AngleBracketed(Vec<GenericArgModel>),
    /// `(...)`, as in `Fn(A) -> B`.
    Parenthesized,
}

/// One generic argument.
pub enum GenericArgModel {
    /// A type argument.
    Type(TypeModel),
    /// A lifetime, a constant, a binding or a constraint.
    Other,
}

/// A path segment: an identifier and the generic arguments after it.
pub struct SegmentModel {
    pub ident: String,
    pub args: ArgsModel,
}

/// A path such as `::core::option::Option<T>`.
pub struct PathModel {
    pub leading_colon: bool,
    pub segments: Vec<SegmentModel>,
}

/// A type.
pub enum TypeModel {
    /// A path, with the self type of a qualified path (`<Q as Trait>::X`).
    Path { qself: Option<Box<TypeModel>>, path: PathModel },
    /// `&T` or `&mut T`.
    Reference(Box<TypeModel>),
    /// `*const T` or `*mut T`.
    Ptr(Box<TypeModel>),
    /// `[T]`.
    Slice(Box<TypeModel>),
    /// `[T; N]`, with its element type; the length is not modelled.
    Array(Box<TypeModel>),
    /// `(A, B, ...)`.
    Tuple(Vec<TypeModel>),
    /// `(T)`.
    Paren(Box<TypeModel>),
    /// Any other type (function pointers, trait objects, `impl Trait`, `!`,
    /// `_`, macros), which the generators do not look into.
    Other,
}

/// A function argument pattern: the text it is written with, and its
/// identifier where it is a plain identifier pattern.
pub struct PatModel {
    pub text: String,
    pub ident: Option<String>,
}

/// A function argument.
pub enum FnArgModel {
    /// `self`, `&self`, `&mut self`.
    Receiver,
    /// `pat: ty`.
    Typed { pat: PatModel, ty: TypeModel },
}

/// A function signature; an output of `None` is `()`.
pub struct SignatureModel {
    pub ident: String,
    pub inputs: Vec<FnArgModel>,
    pub output: Option<TypeModel>,
}

/// An item of a trait.
pub enum TraitItemModel {
    /// A method.
    Fn(SignatureModel),
    /// An associated type.
    Type { ident: String },
    /// An associated constant, a macro or anything else.
    Other,
}

/// A trait declaration.
pub struct TraitModel {
    pub ident: String,
    pub items: Vec<TraitItemModel>,
}

/// The path consists of the single identifier `name`, with no leading `::`
/// and no generic arguments.
pub open spec fn path_is_ident(p: PathModel, name: Seq<char>) -> bool {
    &&& !p.leading_colon
    &&& p.segments.len() == 1
    &&& p.segments@[0].ident@ == name
    &&& p.segments@[0].args is Absent
}

/// Whether `p` is the single identifier `name`.
pub fn is_ident(p: &PathModel, name: &str) -> (r: bool)
    ensures
        r == path_is_ident(*p, name@),
{
    if p.leading_colon || p.segments.len() != 1 {
        return false;
    }
    let seg = &p.segments[0];
    match seg.args {
        ArgsModel::Absent => str_eq(seg.ident.as_str(), name),
        _ => false,
    }
}

/// Whether two strings are equal.
pub fn str_eq(a: &str, b: &str) -> (r: bool)
    ensures
        r == (a@ == b@),
{
    let ab = a.as_bytes();
    let bb = b.as_bytes();
    proof {
        vstd::utf8::encode_utf8_decode_utf8(a@);
        vstd::utf8::encode_utf8_decode_utf8(b@);
    }
    if ab.len() != bb.len() {
        return false;
    }
    let mut i: usize = 0;
    while i < ab.len()
        invariant
            ab@ == vstd::utf8::encode_utf8(a@),
            bb@ == vstd::utf8::encode_utf8(b@),
            ab@.len() == bb@.len(),
            0 <= i <= ab@.len(),
            forall|j: int| 0 <= j < i ==> ab@[j] == bb@[j],
        decreases ab@.len() - i,
    {
        if ab[i] != bb[i] {
            return false;
        }
        i = i + 1;
    }
    assert(ab@ =~= bb@);
    true
}

/// The mathematical value of generic arguments.
pub enum ArgsView {
    Absent,
    AngleBracketed(Seq<GenericArgView>),
    Parenthesized,
}

/// The mathematical value of a generic argument.
pub enum GenericArgView {
    Type(TypeModelView),
    Other,
}

/// The mathematical value of a path segment.
pub struct SegmentView {
    pub ident: Seq<char>,
    pub args: ArgsView,
}

/// The mathematical value of a path.
pub struct PathView {
    pub leading_colon: bool,
    pub segments: Seq<SegmentView>,
}

/// The mathematical value of a type: the same tree, with sequences in place
/// of vectors and character sequences in place of strings.
pub enum TypeModelView {
    Path { qself: Option<Box<TypeModelView>>, path: PathView },
    Reference(Box<TypeModelView>),
    Ptr(Box<TypeModelView>),
    Slice(Box<TypeModelView>),
    Array(Box<TypeModelView>),
    Tuple(Seq<TypeModelView>),
    Paren(Box<TypeModelView>),
    Other,
}

pub open spec fn view_ty(t: TypeModel) -> TypeModelView
    decreases t,
{
    match t {
        TypeModel::Path { qself, path } => TypeModelView::Path {
            qself: match qself {
                Some(q) => Some(Box::new(view_ty(*q))),
                None => None,
            },
            path: PathView { leading_colon: path.leading_colon, segments: view_segs(path.segments@) },
        },
        TypeModel::Reference(b) => TypeModelView::Reference(Box::new(view_ty(*b))),
        TypeModel::Ptr(b) => TypeModelView::Ptr(Box::new(view_ty(*b))),
        TypeModel::Slice(b) => TypeModelView::Slice(Box::new(view_ty(*b))),
        TypeModel::Array(b) => TypeModelView::Array(Box::new(view_ty(*b))),
        TypeModel::Tuple(ts) => TypeModelView::Tuple(view_tys(ts@)),
        TypeModel::Paren(b) => TypeModelView::Paren(Box::new(view_ty(*b))),
        TypeModel::Other => TypeModelView::Other,
    }
}

pub open spec fn view_tys(ts: Seq<TypeModel>) -> Seq<TypeModelView>
    decreases ts,
{
    if ts.len() == 0 {
        Seq::empty()
    } else {
        view_tys(ts.subrange(0, ts.len() - 1)).push(view_ty(ts[ts.len() - 1]))
    }
}

pub open spec fn view_segs(ss: Seq<SegmentModel>) -> Seq<SegmentView>
    decreases ss,
{
    if ss.len() == 0 {
        Seq::empty()
    } else {
        view_segs(ss.subrange(0, ss.len() - 1)).push(
            SegmentView {
                ident: ss[ss.len() - 1].ident@,
                args: view_args(ss[ss.len() - 1].args),
            },
        )
    }
}

pub open spec fn view_args(a: ArgsModel) -> ArgsView
    decreases a,
{
    match a {
        ArgsModel::Absent => ArgsView::Absent,
        ArgsModel::AngleBracketed(gs) => ArgsView::AngleBracketed(view_gargs(gs@)),
        ArgsModel::Parenthesized => ArgsView::Parenthesized,
    }
}

pub open spec fn view_gargs(gs: Seq<GenericArgModel>) -> Seq<GenericArgView>
    decreases gs,
{
    if gs.len() == 0 {
        Seq::empty()
    } else {
        view_gargs(gs.subrange(0, gs.len() - 1)).push(
            match gs[gs.len() - 1] {
                GenericArgModel::Type(t) => GenericArgView::Type(view_ty(t)),
                GenericArgModel::Other => GenericArgView::Other,
            },
        )
    }
}

impl View for TypeModel {
    type V = TypeModelView;

    open spec fn view(&self) -> TypeModelView {
        view_ty(*self)
    }
}

impl View for SegmentModel {
    type V = SegmentView;

    open spec fn view(&self) -> SegmentView {
        SegmentView { ident: self.ident@, args: view_args(self.args) }
    }
}

impl View for PathModel {
    type V = PathView;

    open spec fn view(&self) -> PathView {
        PathView { leading_colon: self.leading_colon, segments: view_segs(self.segments@) }
    }
}

pub proof fn lemma_view_tys(ts: Seq<TypeModel>)
    ensures
        view_tys(ts).len() == ts.len(),
        forall|i: int| 0 <= i < ts.len() ==> #[trigger] view_tys(ts)[i] == view_ty(ts[i]),
    decreases ts.len(),
{
    if ts.len() > 0 {
        lemma_view_tys(ts.subrange(0, ts.len() - 1));
    }
}

pub proof fn lemma_view_segs(ss: Seq<SegmentModel>)
    ensures
        view_segs(ss).len() == ss.len(),
        forall|i: int| 0 <= i < ss.len() ==> #[trigger] view_segs(ss)[i] == ss[i]@,
    decreases ss.len(),
{
    if ss.len() > 0 {
        lemma_view_segs(ss.subrange(0, ss.len() - 1));
    }
}

pub proof fn lemma_view_gargs(gs: Seq<GenericArgModel>)
    ensures
        view_gargs(gs).len() == gs.len(),
        forall|i: int|
            0 <= i < gs.len() ==> #[trigger] view_gargs(gs)[i] == match gs[i] {
                GenericArgModel::Type(t) => GenericArgView::Type(view_ty(t)),
                GenericArgModel::Other => GenericArgView::Other,
            },
    decreases gs.len(),
{
    if gs.len() > 0 {
        lemma_view_gargs(gs.subrange(0, gs.len() - 1));
    }
}

/// The type that a bound is placed on for `ty`: the element type of a
/// reference, a pointer, a slice or an array, else the type itself.
pub fn get_type_param(ty: &TypeModel) -> (r: &TypeModel)
    ensures
        *r == match *ty {
            TypeModel::Reference(b) => *b,
            TypeModel::Ptr(b) => *b,
            TypeModel::Slice(b) => *b,
            TypeModel::Array(b) => *b,
            _ => *ty,
        },
{
    match ty {
        TypeModel::Reference(b) => &**b,
        TypeModel::Ptr(b) => &**b,
        TypeModel::Slice(b) => &**b,
        TypeModel::Array(b) => &**b,
        _ => ty,
    }
}

} // verus!
