//! What `decl_extensions` and `impl_extensions` decide about the traits and
//! the impls they are given: the methods of an extension and the variants of
//! its call enum, the metadata that describes it, and the modules through
//! which the impls of a runtime reach what was generated for each trait.
use vstd::prelude::*;
use crate::naming::generate_mod_name_for_trait;
use crate::syntax::{
    get_type_param, lemma_view_gargs, lemma_view_segs, lemma_view_tys, str_eq, view_args, view_gargs, view_segs,
    view_ty, view_tys, ArgsModel, ArgsView, FnArgModel, GenericArgModel, GenericArgView,
    PathModel, PathView, SegmentModel, SegmentView, SignatureModel, TraitItemModel, TraitModel,
    TypeModel, TypeModelView,
};

verus! {

/// A path `Self::X` (two segments, the first `Self`) becomes the single
/// segment `GenericForX`, with the arguments that `X` had; any other path
/// stays as it is. Only the path itself is looked at, not the types inside
/// its arguments.
pub open spec fn replaced_path(p: PathView) -> PathView {
    if p.segments.len() == 2 && p.segments[0].ident == "Self"@ {
        PathView {
            leading_colon: p.leading_colon,
            segments: seq![
                SegmentView {
                    ident: "GenericFor"@ + p.segments[1].ident,
                    args: p.segments[1].args,
                },
            ],
        }
    } else {
        p
    }
}

/// The associated type that `replaced_path` turns into a generic
/// parameter, if any.
pub open spec fn path_assoc_names(p: PathView) -> Seq<Seq<char>> {
    if p.segments.len() == 2 && p.segments[0].ident == "Self"@ {
        seq![p.segments[1].ident]
    } else {
        Seq::empty()
    }
}

/// The type with every path `Self::X` in it replaced by `GenericForX`: the
/// paths of qualified self types, of referenced, pointed-to, slice, array
/// and parenthesized element types, and of tuple elements are visited.
pub open spec fn replace_assoc(t: TypeModelView) -> TypeModelView
    decreases t,
{
    match t {
        TypeModelView::Path { qself, path } => TypeModelView::Path {
            qself: match qself {
                Some(q) => Some(Box::new(replace_assoc(*q))),
                None => None,
            },
            path: replaced_path(path),
        },
        TypeModelView::Reference(b) => TypeModelView::Reference(Box::new(replace_assoc(*b))),
        TypeModelView::Ptr(b) => TypeModelView::Ptr(Box::new(replace_assoc(*b))),
        TypeModelView::Slice(b) => TypeModelView::Slice(Box::new(replace_assoc(*b))),
        TypeModelView::Array(b) => TypeModelView::Array(Box::new(replace_assoc(*b))),
        TypeModelView::Tuple(ts) => TypeModelView::Tuple(replace_assocs(ts)),
        TypeModelView::Paren(b) => TypeModelView::Paren(Box::new(replace_assoc(*b))),
        TypeModelView::Other => TypeModelView::Other,
    }
}

pub open spec fn replace_assocs(ts: Seq<TypeModelView>) -> Seq<TypeModelView>
    decreases ts,
{
    if ts.len() == 0 {
        Seq::empty()
    } else {
        replace_assocs(ts.subrange(0, ts.len() - 1)).push(replace_assoc(ts[ts.len() - 1]))
    }
}

/// The associated types replaced in `t`, in the order they are met.
pub open spec fn assoc_names(t: TypeModelView) -> Seq<Seq<char>>
    decreases t,
{
    match t {
        TypeModelView::Path { qself, path } => {
            let head = match qself {
                Some(q) => assoc_names(*q),
                None => Seq::empty(),
            };
            head + path_assoc_names(path)
        },
        TypeModelView::Reference(b) => assoc_names(*b),
        TypeModelView::Ptr(b) => assoc_names(*b),
        TypeModelView::Slice(b) => assoc_names(*b),
        TypeModelView::Array(b) => assoc_names(*b),
        TypeModelView::Tuple(ts) => assocs_names(ts),
        TypeModelView::Paren(b) => assoc_names(*b),
        TypeModelView::Other => Seq::empty(),
    }
}

pub open spec fn assocs_names(ts: Seq<TypeModelView>) -> Seq<Seq<char>>
    decreases ts,
{
    if ts.len() == 0 {
        Seq::empty()
    } else {
        assocs_names(ts.subrange(0, ts.len() - 1)) + assoc_names(ts[ts.len() - 1])
    }
}

/// The character sequences of a list of strings.
pub open spec fn strs(v: Seq<String>) -> Seq<Seq<char>> {
    v.map_values(|s: String| s@)
}

proof fn lemma_strs_push(v: Seq<String>, s: String)
    ensures
        strs(v.push(s)) == strs(v).push(s@),
{
    assert(strs(v.push(s)) =~= strs(v).push(s@));
}

/// A copy of generic arguments.
fn copy_args(a: &ArgsModel) -> (r: ArgsModel)
    ensures
        view_args(r) == view_args(*a),
    decreases a,
{
    match a {
        ArgsModel::Absent => ArgsModel::Absent,
        ArgsModel::Parenthesized => ArgsModel::Parenthesized,
        ArgsModel::AngleBracketed(gs) => ArgsModel::AngleBracketed(copy_gargs(gs)),
    }
}

/// A copy of a list of generic arguments.
fn copy_gargs(gs: &Vec<GenericArgModel>) -> (r: Vec<GenericArgModel>)
    ensures
        view_gargs(r@) == view_gargs(gs@),
    decreases gs,
{
    let mut r: Vec<GenericArgModel> = Vec::new();
    let mut i: usize = 0;
    while i < gs.len()
        invariant
            0 <= i <= gs@.len(),
            r@.len() == i,
            view_gargs(r@) == view_gargs(gs@.subrange(0, i as int)),
        decreases gs@.len() - i,
    {
        assert(decreases_to!(gs => gs@[i as int]));
        let g = match &gs[i] {
            GenericArgModel::Type(t) => GenericArgModel::Type(copy_ty(t)),
            GenericArgModel::Other => GenericArgModel::Other,
        };
        let ghost prev = r@;
        r.push(g);
        assert(r@.subrange(0, i as int) =~= prev);
        assert(gs@.subrange(0, i + 1).subrange(0, i as int) =~= gs@.subrange(0, i as int));
        i = i + 1;
    }
    assert(gs@.subrange(0, gs@.len() as int) =~= gs@);
    r
}

/// A copy of path segments.
fn copy_segs(ss: &Vec<SegmentModel>) -> (r: Vec<SegmentModel>)
    ensures
        view_segs(r@) == view_segs(ss@),
    decreases ss,
{
    let mut r: Vec<SegmentModel> = Vec::new();
    let mut i: usize = 0;
    while i < ss.len()
        invariant
            0 <= i <= ss@.len(),
            r@.len() == i,
            view_segs(r@) == view_segs(ss@.subrange(0, i as int)),
        decreases ss@.len() - i,
    {
        assert(decreases_to!(ss => ss@[i as int]));
        let seg = SegmentModel { ident: ss[i].ident.clone(), args: copy_args(&ss[i].args) };
        let ghost prev = r@;
        r.push(seg);
        assert(r@.subrange(0, i as int) =~= prev);
        assert(ss@.subrange(0, i + 1).subrange(0, i as int) =~= ss@.subrange(0, i as int));
        i = i + 1;
    }
    assert(ss@.subrange(0, ss@.len() as int) =~= ss@);
    r
}

/// A copy of a path.
fn copy_path(p: &PathModel) -> (r: PathModel)
    ensures
        r@ == p@,
    decreases p,
{
    PathModel { leading_colon: p.leading_colon, segments: copy_segs(&p.segments) }
}

/// A copy of a type.
pub fn copy_ty(t: &TypeModel) -> (r: TypeModel)
    ensures
        r@ == t@,
    decreases t,
{
    match t {
        TypeModel::Path { qself, path } => {
            let q = match qself {
                Some(q) => Some(Box::new(copy_ty(q))),
                None => None,
            };
            TypeModel::Path { qself: q, path: copy_path(path) }
        },
        TypeModel::Reference(b) => TypeModel::Reference(Box::new(copy_ty(b))),
        TypeModel::Ptr(b) => TypeModel::Ptr(Box::new(copy_ty(b))),
        TypeModel::Slice(b) => TypeModel::Slice(Box::new(copy_ty(b))),
        TypeModel::Array(b) => TypeModel::Array(Box::new(copy_ty(b))),
        TypeModel::Paren(b) => TypeModel::Paren(Box::new(copy_ty(b))),
        TypeModel::Other => TypeModel::Other,
        TypeModel::Tuple(ts) => TypeModel::Tuple(copy_tys(ts)),
    }
}

/// A copy of a list of types.
fn copy_tys(ts: &Vec<TypeModel>) -> (r: Vec<TypeModel>)
    ensures
        view_tys(r@) == view_tys(ts@),
    decreases ts,
{
    let mut r: Vec<TypeModel> = Vec::new();
    let mut i: usize = 0;
    while i < ts.len()
        invariant
            0 <= i <= ts@.len(),
            r@.len() == i,
            view_tys(r@) == view_tys(ts@.subrange(0, i as int)),
        decreases ts@.len() - i,
    {
        assert(decreases_to!(ts => ts@[i as int]));
        let c = copy_ty(&ts[i]);
        let ghost prev = r@;
        r.push(c);
        assert(r@.subrange(0, i as int) =~= prev);
        assert(ts@.subrange(0, i + 1).subrange(0, i as int) =~= ts@.subrange(0, i as int));
        i = i + 1;
    }
    assert(ts@.subrange(0, ts@.len() as int) =~= ts@);
    r
}

/// The path with `Self::X` replaced; the replaced associated type, if any,
/// is appended to `names`.
fn replace_path(p: &PathModel, names: &mut Vec<String>) -> (r: PathModel)
    ensures
        r@ == replaced_path(p@),
        strs(final(names)@) == strs(old(names)@) + path_assoc_names(p@),
{
    proof {
        lemma_view_segs(p.segments@);
    }
    if p.segments.len() == 2 && str_eq(p.segments[0].ident.as_str(), "Self") {
        let assoc = &p.segments[1];
        let ident = String::from_str("GenericFor").concat(assoc.ident.as_str());
        let seg = SegmentModel { ident, args: copy_args(&assoc.args) };
        let ghost sv = seg@;
        let mut segments: Vec<SegmentModel> = Vec::new();
        segments.push(seg);
        proof {
            lemma_strs_push(names@, assoc.ident);
            lemma_view_segs(segments@);
            assert(view_segs(segments@) =~= seq![sv]);
        }
        names.push(assoc.ident.clone());
        assert(strs(names@) =~= strs(old(names)@) + path_assoc_names(p@));
        PathModel { leading_colon: p.leading_colon, segments }
    } else {
        assert(strs(names@) =~= strs(old(names)@) + path_assoc_names(p@));
        copy_path(p)
    }
}

/// The type with `Self::X` replaced by `GenericForX` throughout; the
/// replaced associated types are appended to `names`, in the order met.
pub fn replace_associated_types(t: &TypeModel, names: &mut Vec<String>) -> (r: TypeModel)
    ensures
        r@ == replace_assoc(t@),
        strs(final(names)@) == strs(old(names)@) + assoc_names(t@),
    decreases t,
{
    match t {
        TypeModel::Path { qself, path } => {
            let q = match qself {
                Some(q) => Some(Box::new(replace_associated_types(q, names))),
                None => None,
            };
            let p = replace_path(path, names);
            assert(strs(names@) =~= strs(old(names)@) + assoc_names(t@));
            TypeModel::Path { qself: q, path: p }
        },
        TypeModel::Reference(b) => TypeModel::Reference(Box::new(replace_associated_types(b, names))),
        TypeModel::Ptr(b) => TypeModel::Ptr(Box::new(replace_associated_types(b, names))),
        TypeModel::Slice(b) => TypeModel::Slice(Box::new(replace_associated_types(b, names))),
        TypeModel::Array(b) => TypeModel::Array(Box::new(replace_associated_types(b, names))),
        TypeModel::Paren(b) => TypeModel::Paren(Box::new(replace_associated_types(b, names))),
        TypeModel::Other => {
            assert(strs(names@) =~= strs(old(names)@) + assoc_names(t@));
            TypeModel::Other
        },
        TypeModel::Tuple(ts) => TypeModel::Tuple(replace_tys(ts, names)),
    }
}

/// `replace_associated_types` on each type of a list.
fn replace_tys(ts: &Vec<TypeModel>, names: &mut Vec<String>) -> (r: Vec<TypeModel>)
    ensures
        view_tys(r@) == replace_assocs(view_tys(ts@)),
        strs(final(names)@) == strs(old(names)@) + assocs_names(view_tys(ts@)),
    decreases ts,
{
    let mut r: Vec<TypeModel> = Vec::new();
    let mut i: usize = 0;
    proof {
        assert(ts@.subrange(0, 0) =~= Seq::<TypeModel>::empty());
        assert(view_tys(ts@.subrange(0, 0)) =~= Seq::<TypeModelView>::empty());
        assert(strs(names@) =~= strs(old(names)@) + assocs_names(Seq::empty()));
    }
    while i < ts.len()
        invariant
            0 <= i <= ts@.len(),
            r@.len() == i,
            view_tys(r@) == replace_assocs(view_tys(ts@.subrange(0, i as int))),
            strs(names@) == strs(old(names)@) + assocs_names(view_tys(ts@.subrange(0, i as int))),
        decreases ts@.len() - i,
    {
        assert(decreases_to!(ts => ts@[i as int]));
        let c = replace_associated_types(&ts[i], names);
        let ghost prev = r@;
        r.push(c);
        proof {
            let s1 = ts@.subrange(0, i + 1);
            assert(s1.subrange(0, i as int) =~= ts@.subrange(0, i as int));
            assert(r@.subrange(0, i as int) =~= prev);
            lemma_view_tys(s1);
            assert(view_tys(s1).subrange(0, i as int) =~= view_tys(ts@.subrange(0, i as int)));
            assert(view_tys(s1)[i as int] == view_ty(ts@[i as int]));
            assert(strs(names@) =~= strs(old(names)@) + assocs_names(view_tys(s1)));
        }
        i = i + 1;
    }
    assert(ts@.subrange(0, ts@.len() as int) =~= ts@);
    r
}

/// Why the methods of an extension trait were refused.
#[derive(Debug, PartialEq, Eq, Structural)]
pub enum DeclError {
    /// A method argument is no plain identifier.
    InvalidArgument,
}

impl DeclError {
    /// The message that the compiler shows for the error.
    pub fn message(&self) -> (r: &'static str)
        ensures
            r@ == "Invalid call, argument must be ident"@,
    {
        "Invalid call, argument must be ident"
    }
}

/// A method of an extension: its name and its arguments, each a name with
/// a type. The variant of the call enum that carries it has one field per
/// argument, with the argument's name and type.
pub struct MethodModel {
    pub name: String,
    pub args: Vec<(String, TypeModel)>,
}

/// The item is no method that takes a receiver.
pub open spec fn takes_no_receiver(item: TraitItemModel) -> bool {
    match item {
        TraitItemModel::Fn(sig) => forall|j: int|
            0 <= j < sig.inputs.len() ==> !(#[trigger] sig.inputs@[j] is Receiver),
        _ => true,
    }
}

/// No method among the items takes a receiver.
pub open spec fn no_receivers(items: Seq<TraitItemModel>) -> bool {
    forall|i: int| 0 <= i < items.len() ==> #[trigger] takes_no_receiver(items[i])
}

/// The arguments as names with types, each name of which must be a plain
/// identifier.
pub open spec fn typed_args(inputs: Seq<FnArgModel>) -> Option<Seq<(Seq<char>, TypeModelView)>>
    decreases inputs.len(),
{
    if inputs.len() == 0 {
        Some(Seq::empty())
    } else {
        match typed_args(inputs.drop_last()) {
            None => None,
            Some(args) => match inputs.last() {
                FnArgModel::Typed { pat, ty } => match pat.ident {
                    Some(id) => Some(args.push((id@, ty@))),
                    None => None,
                },
                FnArgModel::Receiver => Some(args),
            },
        }
    }
}

/// The methods among the items, in order, as names and typed arguments.
pub open spec fn method_list(items: Seq<TraitItemModel>) -> Option<
    Seq<(Seq<char>, Seq<(Seq<char>, TypeModelView)>)>,
>
    decreases items.len(),
{
    if items.len() == 0 {
        Some(Seq::empty())
    } else {
        match method_list(items.drop_last()) {
            None => None,
            Some(ms) => match items.last() {
                TraitItemModel::Fn(sig) => match typed_args(sig.inputs@) {
                    Some(args) => Some(ms.push((sig.ident@, args))),
                    None => None,
                },
                _ => Some(ms),
            },
        }
    }
}

/// The mathematical value of an argument.
pub open spec fn arg_view(a: (String, TypeModel)) -> (Seq<char>, TypeModelView) {
    (a.0@, a.1@)
}

/// The mathematical value of a method.
pub open spec fn method_view(m: MethodModel) -> (Seq<char>, Seq<(Seq<char>, TypeModelView)>) {
    (m.name@, m.args@.map_values(|a: (String, TypeModel)| arg_view(a)))
}

proof fn lemma_typed_args_none(inputs: Seq<FnArgModel>, i: int)
    requires
        0 <= i <= inputs.len(),
        typed_args(inputs.subrange(0, i)) is None,
    ensures
        typed_args(inputs) is None,
    decreases inputs.len() - i,
{
    if i < inputs.len() {
        assert(inputs.subrange(0, i + 1).drop_last() =~= inputs.subrange(0, i));
        lemma_typed_args_none(inputs, i + 1);
    } else {
        assert(inputs.subrange(0, i) =~= inputs);
    }
}

proof fn lemma_method_list_none(items: Seq<TraitItemModel>, i: int)
    requires
        0 <= i <= items.len(),
        method_list(items.subrange(0, i)) is None,
    ensures
        method_list(items) is None,
    decreases items.len() - i,
{
    if i < items.len() {
        assert(items.subrange(0, i + 1).drop_last() =~= items.subrange(0, i));
        lemma_method_list_none(items, i + 1);
    } else {
        assert(items.subrange(0, i) =~= items);
    }
}

/// The arguments of a method, as names with types.
fn method_args(sig: &SignatureModel) -> (r: Option<Vec<(String, TypeModel)>>)
    ensures
        r matches Some(v) ==> typed_args(sig.inputs@) == Some(
            v@.map_values(|a: (String, TypeModel)| arg_view(a)),
        ),
        r is None ==> typed_args(sig.inputs@) is None,
{
    let mut args: Vec<(String, TypeModel)> = Vec::new();
    let mut i: usize = 0;
    assert(sig.inputs@.subrange(0, 0) =~= Seq::<FnArgModel>::empty());
    assert(args@.map_values(|a: (String, TypeModel)| arg_view(a)) =~= Seq::<
        (Seq<char>, TypeModelView),
    >::empty());
    while i < sig.inputs.len()
        invariant
            0 <= i <= sig.inputs@.len(),
            typed_args(sig.inputs@.subrange(0, i as int)) == Some(
                args@.map_values(|a: (String, TypeModel)| arg_view(a)),
            ),
        decreases sig.inputs@.len() - i,
    {
        proof {
            let p = sig.inputs@.subrange(0, i + 1);
            assert(p.drop_last() =~= sig.inputs@.subrange(0, i as int));
            assert(p.last() == sig.inputs@[i as int]);
        }
        match &sig.inputs[i] {
            FnArgModel::Typed { pat, ty } => match &pat.ident {
                Some(id) => {
                    let a = (id.clone(), copy_ty(ty));
                    assert(arg_view(a) == (id@, ty@));
                    let ghost prev = args@;
                    args.push(a);
                    assert(args@.map_values(|a: (String, TypeModel)| arg_view(a)) =~= prev.map_values(
                        |a: (String, TypeModel)| arg_view(a),
                    ).push(arg_view(a)));
                },
                None => {
                    proof {
                        lemma_typed_args_none(sig.inputs@, i + 1);
                    }
                    return None;
                },
            },
            FnArgModel::Receiver => {},
        }
        i = i + 1;
    }
    assert(sig.inputs@.subrange(0, i as int) =~= sig.inputs@);
    Some(args)
}

/// The methods of an extension trait, in order: the variants of its call
/// enum and the arms of its dispatch. A method argument that is no plain
/// identifier is refused.
pub fn methods(trait_items: &Vec<TraitItemModel>) -> (r: Result<Vec<MethodModel>, DeclError>)
    requires
        no_receivers(trait_items@),
    ensures
        r matches Ok(v) ==> method_list(trait_items@) == Some(v@.map_values(|m: MethodModel| method_view(m))),
        r is Err ==> method_list(trait_items@) is None,
{
    let mut ms: Vec<MethodModel> = Vec::new();
    let mut i: usize = 0;
    assert(trait_items@.subrange(0, 0) =~= Seq::<TraitItemModel>::empty());
    assert(ms@.map_values(|m: MethodModel| method_view(m)) =~= Seq::<
        (Seq<char>, Seq<(Seq<char>, TypeModelView)>),
    >::empty());
    while i < trait_items.len()
        invariant
            0 <= i <= trait_items@.len(),
            method_list(trait_items@.subrange(0, i as int)) == Some(ms@.map_values(|m: MethodModel| method_view(m))),
        decreases trait_items@.len() - i,
    {
        proof {
            let p = trait_items@.subrange(0, i + 1);
            assert(p.drop_last() =~= trait_items@.subrange(0, i as int));
            assert(p.last() == trait_items@[i as int]);
        }
        match &trait_items[i] {
            TraitItemModel::Fn(sig) => match method_args(sig) {
                Some(args) => {
                    let m = MethodModel { name: sig.ident.clone(), args };
                    let ghost prev = ms@;
                    ms.push(m);
                    assert(ms@.map_values(|m: MethodModel| method_view(m)) =~= prev.map_values(|m: MethodModel| method_view(m)).push(method_view(m)));
                },
                None => {
                    proof {
                        lemma_method_list_none(trait_items@, i + 1);
                    }
                    return Err(DeclError::InvalidArgument);
                },
            },
            _ => {},
        }
        i = i + 1;
    }
    assert(trait_items@.subrange(0, i as int) =~= trait_items@);
    Ok(ms)
}

/// Some item of the trait is an associated type: the trait has a
/// configuration, and the metadata is generic over it.
pub open spec fn has_config(items: Seq<TraitItemModel>) -> bool {
    exists|i: int| 0 <= i < items.len() && #[trigger] items[i] is Type
}

/// Whether some item of the trait is an associated type.
pub fn trait_has_config(items: &Vec<TraitItemModel>) -> (r: bool)
    ensures
        r == has_config(items@),
{
    let mut i: usize = 0;
    while i < items.len()
        invariant
            0 <= i <= items@.len(),
            forall|j: int| 0 <= j < i ==> !(#[trigger] items@[j] is Type),
        decreases items@.len() - i,
    {
        if let TraitItemModel::Type { .. } = &items[i] {
            return true;
        }
        i = i + 1;
    }
    false
}

/// `t`, with the associated types replaced where the trait has a
/// configuration.
pub open spec fn prepared(t: TypeModelView, config: bool) -> TypeModelView {
    if config {
        replace_assoc(t)
    } else {
        t
    }
}

/// The associated types that `prepared` replaces in `t`.
pub open spec fn prepared_names(t: TypeModelView, config: bool) -> Seq<Seq<char>> {
    if config {
        assoc_names(t)
    } else {
        Seq::empty()
    }
}

/// The metadata of a parameter: its name as written, and its type.
pub struct ParamPlan {
    pub name: String,
    pub ty: TypeModel,
}

/// The metadata of a method: its name, its parameters, and its output type
/// (`None` for `()`).
pub struct MethodPlan {
    pub name: String,
    pub params: Vec<ParamPlan>,
    pub output: Option<TypeModel>,
}

/// The metadata of an extension trait: its name, whether it has a
/// configuration, its methods, and the associated types that become
/// generic parameters (`GenericForX`, bound by `X`), each once.
pub struct DeclMetadataPlan {
    pub name: String,
    pub has_config: bool,
    pub methods: Vec<MethodPlan>,
    pub generic_params: Vec<String>,
}

/// The mathematical value of a parameter's metadata.
pub open spec fn param_view(p: ParamPlan) -> (Seq<char>, TypeModelView) {
    (p.name@, p.ty@)
}

/// The mathematical value of a method's metadata.
pub open spec fn method_plan_view(m: MethodPlan) -> (Seq<char>, Seq<(Seq<char>, TypeModelView)>, Option<TypeModelView>) {
    (
        m.name@,
        m.params@.map_values(|p: ParamPlan| param_view(p)),
        match m.output {
            Some(t) => Some(t@),
            None => None,
        },
    )
}

/// The metadata of the typed parameters (a receiver has none).
pub open spec fn param_plans(inputs: Seq<FnArgModel>, config: bool) -> Seq<(Seq<char>, TypeModelView)>
    decreases inputs.len(),
{
    if inputs.len() == 0 {
        Seq::empty()
    } else {
        let ps = param_plans(inputs.drop_last(), config);
        match inputs.last() {
            FnArgModel::Typed { pat, ty } => ps.push((pat.text@, prepared(ty@, config))),
            FnArgModel::Receiver => ps,
        }
    }
}

/// The associated types replaced in the parameters, in order.
pub open spec fn params_names(inputs: Seq<FnArgModel>, config: bool) -> Seq<Seq<char>>
    decreases inputs.len(),
{
    if inputs.len() == 0 {
        Seq::empty()
    } else {
        let ns = params_names(inputs.drop_last(), config);
        match inputs.last() {
            FnArgModel::Typed { pat, ty } => ns + prepared_names(ty@, config),
            FnArgModel::Receiver => ns,
        }
    }
}

/// The metadata of a method.
pub open spec fn method_plan(sig: SignatureModel, config: bool) -> (Seq<char>, Seq<(Seq<char>, TypeModelView)>, Option<TypeModelView>) {
    (
        sig.ident@,
        param_plans(sig.inputs@, config),
        match sig.output {
            Some(t) => Some(prepared(t@, config)),
            None => None,
        },
    )
}

/// The associated types replaced in a method: in its parameters, then in
/// its output type.
pub open spec fn method_names(sig: SignatureModel, config: bool) -> Seq<Seq<char>> {
    params_names(sig.inputs@, config) + match sig.output {
        Some(t) => prepared_names(t@, config),
        None => Seq::empty(),
    }
}

/// The metadata of the methods among the items, in order.
pub open spec fn method_plans(items: Seq<TraitItemModel>, config: bool) -> Seq<(Seq<char>, Seq<(Seq<char>, TypeModelView)>, Option<TypeModelView>)>
    decreases items.len(),
{
    if items.len() == 0 {
        Seq::empty()
    } else {
        let ms = method_plans(items.drop_last(), config);
        match items.last() {
            TraitItemModel::Fn(sig) => ms.push(method_plan(sig, config)),
            _ => ms,
        }
    }
}

/// The associated types replaced in the methods among the items, in order.
pub open spec fn methods_names(items: Seq<TraitItemModel>, config: bool) -> Seq<Seq<char>>
    decreases items.len(),
{
    if items.len() == 0 {
        Seq::empty()
    } else {
        let ns = methods_names(items.drop_last(), config);
        match items.last() {
            TraitItemModel::Fn(sig) => ns + method_names(sig, config),
            _ => ns,
        }
    }
}

/// The names, each once, in the order of their first occurrence.
pub open spec fn dedup(names: Seq<Seq<char>>) -> Seq<Seq<char>>
    decreases names.len(),
{
    if names.len() == 0 {
        Seq::empty()
    } else {
        let d = dedup(names.drop_last());
        if d.contains(names.last()) {
            d
        } else {
            d.push(names.last())
        }
    }
}

/// The metadata that `decl_extensions` generates for a trait.
pub open spec fn decl_metadata(t: TraitModel) -> (Seq<char>, bool, Seq<(Seq<char>, Seq<(Seq<char>, TypeModelView)>, Option<TypeModelView>)>, Seq<Seq<char>>) {
    let config = has_config(t.items@);
    (t.ident@, config, method_plans(t.items@, config), dedup(methods_names(t.items@, config)))
}

/// The mathematical value of a trait's metadata.
pub open spec fn decl_metadata_view(p: DeclMetadataPlan) -> (Seq<char>, bool, Seq<(Seq<char>, Seq<(Seq<char>, TypeModelView)>, Option<TypeModelView>)>, Seq<Seq<char>>) {
    (p.name@, p.has_config, p.methods@.map_values(|m: MethodPlan| method_plan_view(m)), strs(p.generic_params@))
}

/// `t`, with the associated types replaced where `config` holds; the
/// replaced ones are appended to `names`.
fn prepare_type(t: &TypeModel, config: bool, names: &mut Vec<String>) -> (r: TypeModel)
    ensures
        r@ == prepared(t@, config),
        strs(final(names)@) == strs(old(names)@) + prepared_names(t@, config),
{
    if config {
        replace_associated_types(t, names)
    } else {
        assert(strs(names@) =~= strs(old(names)@) + prepared_names(t@, config));
        copy_ty(t)
    }
}

/// The metadata of a method.
fn plan_method(sig: &SignatureModel, config: bool, names: &mut Vec<String>) -> (r: MethodPlan)
    ensures
        method_plan_view(r) == method_plan(*sig, config),
        strs(final(names)@) == strs(old(names)@) + method_names(*sig, config),
{
    let mut params: Vec<ParamPlan> = Vec::new();
    let mut i: usize = 0;
    assert(sig.inputs@.subrange(0, 0) =~= Seq::<FnArgModel>::empty());
    assert(params@.map_values(|p: ParamPlan| param_view(p)) =~= Seq::<(Seq<char>, TypeModelView)>::empty());
    assert(strs(names@) =~= strs(old(names)@) + params_names(Seq::empty(), config));
    while i < sig.inputs.len()
        invariant
            0 <= i <= sig.inputs@.len(),
            params@.map_values(|p: ParamPlan| param_view(p)) == param_plans(sig.inputs@.subrange(0, i as int), config),
            strs(names@) == strs(old(names)@) + params_names(sig.inputs@.subrange(0, i as int), config),
        decreases sig.inputs@.len() - i,
    {
        proof {
            let p = sig.inputs@.subrange(0, i + 1);
            assert(p.drop_last() =~= sig.inputs@.subrange(0, i as int));
            assert(p.last() == sig.inputs@[i as int]);
        }
        match &sig.inputs[i] {
            FnArgModel::Typed { pat, ty } => {
                let t = prepare_type(ty, config, names);
                let pp = ParamPlan { name: pat.text.clone(), ty: t };
                let ghost prev = params@;
                params.push(pp);
                assert(params@.map_values(|p: ParamPlan| param_view(p)) =~= prev.map_values(|p: ParamPlan| param_view(p)).push(param_view(pp)));
                assert(strs(names@) =~= strs(old(names)@) + params_names(sig.inputs@.subrange(0, i + 1), config));
            },
            FnArgModel::Receiver => {},
        }
        i = i + 1;
    }
    assert(sig.inputs@.subrange(0, i as int) =~= sig.inputs@);
    let output = match &sig.output {
        Some(t) => Some(prepare_type(t, config, names)),
        None => None,
    };
    assert(strs(names@) =~= strs(old(names)@) + method_names(*sig, config));
    MethodPlan { name: sig.ident.clone(), params, output }
}

/// Whether `names` holds `s`.
fn contains_name(names: &Vec<String>, s: &String) -> (r: bool)
    ensures
        r == strs(names@).contains(s@),
{
    let mut i: usize = 0;
    while i < names.len()
        invariant
            0 <= i <= names@.len(),
            forall|j: int| 0 <= j < i ==> names@[j]@ != s@,
        decreases names@.len() - i,
    {
        if str_eq(names[i].as_str(), s.as_str()) {
            assert(strs(names@)[i as int] == s@);
            return true;
        }
        i = i + 1;
    }
    assert(!strs(names@).contains(s@)) by {
        if strs(names@).contains(s@) {
            let j = choose|j: int| 0 <= j < strs(names@).len() && strs(names@)[j] == s@;
            assert(names@[j]@ == s@);
        }
    }
    false
}

/// The names, each once, in the order of their first occurrence.
pub fn dedup_names(names: &Vec<String>) -> (r: Vec<String>)
    ensures
        strs(r@) == dedup(strs(names@)),
{
    let mut r: Vec<String> = Vec::new();
    let mut i: usize = 0;
    assert(strs(names@).subrange(0, 0) =~= Seq::<Seq<char>>::empty());
    assert(strs(r@) =~= Seq::<Seq<char>>::empty());
    while i < names.len()
        invariant
            0 <= i <= names@.len(),
            strs(r@) == dedup(strs(names@).subrange(0, i as int)),
        decreases names@.len() - i,
    {
        proof {
            let p = strs(names@).subrange(0, i + 1);
            assert(p.drop_last() =~= strs(names@).subrange(0, i as int));
            assert(p.last() == names@[i as int]@);
        }
        if !contains_name(&r, &names[i]) {
            proof {
                lemma_strs_push(r@, names@[i as int]);
            }
            r.push(names[i].clone());
        }
        i = i + 1;
    }
    assert(strs(names@).subrange(0, i as int) =~= strs(names@));
    r
}

/// The metadata that `decl_extensions` generates for an extension trait:
/// for each method, its name, the name and the type of each parameter, and
/// its output type; where the trait has a configuration (an associated
/// type), every `Self::X` in these types becomes `GenericForX`, and each such
/// `X` becomes a generic parameter.
pub fn decl_metadata_plan(t: &TraitModel) -> (r: DeclMetadataPlan)
    ensures
        decl_metadata_view(r) == decl_metadata(*t),
{
    let config = trait_has_config(&t.items);
    let mut methods: Vec<MethodPlan> = Vec::new();
    let mut names: Vec<String> = Vec::new();
    let mut i: usize = 0;
    assert(t.items@.subrange(0, 0) =~= Seq::<TraitItemModel>::empty());
    assert(methods@.map_values(|m: MethodPlan| method_plan_view(m)) =~= method_plans(Seq::empty(), config));
    assert(strs(names@) =~= methods_names(Seq::empty(), config));
    while i < t.items.len()
        invariant
            0 <= i <= t.items@.len(),
            config == has_config(t.items@),
            methods@.map_values(|m: MethodPlan| method_plan_view(m)) == method_plans(t.items@.subrange(0, i as int), config),
            strs(names@) == methods_names(t.items@.subrange(0, i as int), config),
        decreases t.items@.len() - i,
    {
        proof {
            let p = t.items@.subrange(0, i + 1);
            assert(p.drop_last() =~= t.items@.subrange(0, i as int));
            assert(p.last() == t.items@[i as int]);
        }
        match &t.items[i] {
            TraitItemModel::Fn(sig) => {
                let m = plan_method(sig, config, &mut names);
                let ghost prev = methods@;
                methods.push(m);
                assert(methods@.map_values(|m: MethodPlan| method_plan_view(m)) =~= prev.map_values(|m: MethodPlan| method_plan_view(m)).push(method_plan_view(m)));
            },
            _ => {},
        }
        i = i + 1;
    }
    assert(t.items@.subrange(0, i as int) =~= t.items@);
    let generic_params = dedup_names(&names);
    DeclMetadataPlan { name: t.ident.clone(), has_config: config, methods, generic_params }
}

/// The view of a method's metadata.
pub type MethodPlanView = (Seq<char>, Seq<(Seq<char>, TypeModelView)>, Option<TypeModelView>);

/// The type that the bound `XcqTypeInfo + 'static` of the metadata is
/// placed on for a type `t` of a signature: the element type of a
/// reference, a pointer, a slice or an array (`true`), else `t` itself.
pub open spec fn bound_site(t: TypeModelView) -> (bool, TypeModelView) {
    match t {
        TypeModelView::Reference(b) => (true, *b),
        TypeModelView::Ptr(b) => (true, *b),
        TypeModelView::Slice(b) => (true, *b),
        TypeModelView::Array(b) => (true, *b),
        _ => (false, t),
    }
}

/// A bound of the metadata function's `where` clause: the bounded type is
/// that of parameter `param` of method `method` (`None`: its output type),
/// or that type's element type where `elem` holds; `ty` is the bounded type.
pub struct TypeBound {
    pub method: usize,
    pub param: Option<usize>,
    pub elem: bool,
    pub ty: TypeModel,
}

/// The mathematical value of a bound.
pub open spec fn type_bound_view(b: TypeBound) -> (int, Option<int>, bool, TypeModelView) {
    (
        b.method as int,
        match b.param {
            Some(j) => Some(j as int),
            None => None,
        },
        b.elem,
        b.ty@,
    )
}

/// The bound for the type `t` at a site.
pub open spec fn bound_at(k: int, param: Option<int>, t: TypeModelView) -> (int, Option<int>, bool, TypeModelView) {
    (k, param, bound_site(t).0, bound_site(t).1)
}

/// The bounds for the parameters of method `k`, in order.
pub open spec fn param_bounds(k: int, ps: Seq<(Seq<char>, TypeModelView)>) -> Seq<(int, Option<int>, bool, TypeModelView)> {
    Seq::new(ps.len(), |j: int| bound_at(k, Some(j), ps[j].1))
}

/// The bounds for method `k`: its parameters, then its output type where
/// it has one.
pub open spec fn method_bounds(k: int, m: MethodPlanView) -> Seq<(int, Option<int>, bool, TypeModelView)> {
    param_bounds(k, m.1) + match m.2 {
        Some(t) => seq![bound_at(k, None, t)],
        None => Seq::empty(),
    }
}

/// The bounds of the `where` clause for the methods, in order.
pub open spec fn methods_bounds(ms: Seq<MethodPlanView>) -> Seq<(int, Option<int>, bool, TypeModelView)>
    decreases ms.len(),
{
    if ms.len() == 0 {
        Seq::empty()
    } else {
        methods_bounds(ms.drop_last()) + method_bounds(ms.len() - 1, ms.last())
    }
}

/// The bound for the type `t` at a site.
fn bound_for(k: usize, param: Option<usize>, t: &TypeModel) -> (r: TypeBound)
    ensures
        type_bound_view(r) == bound_at(
            k as int,
            match param {
                Some(j) => Some(j as int),
                None => None,
            },
            t@,
        ),
{
    let elem = match t {
        TypeModel::Reference(_) | TypeModel::Ptr(_) | TypeModel::Slice(_) | TypeModel::Array(_) => true,
        _ => false,
    };
    let ty = copy_ty(get_type_param(t));
    TypeBound { method: k, param, elem, ty }
}

/// The bounds `XcqTypeInfo + 'static` of the `where` clause of the
/// metadata function, in order: for each method, one per parameter, then
/// one for the output type where the method has one.
pub fn metadata_bounds(plan: &DeclMetadataPlan) -> (r: Vec<TypeBound>)
    ensures
        r@.map_values(|b: TypeBound| type_bound_view(b)) == methods_bounds(
            plan.methods@.map_values(|m: MethodPlan| method_plan_view(m)),
        ),
{
    let ghost ms = plan.methods@.map_values(|m: MethodPlan| method_plan_view(m));
    let mut r: Vec<TypeBound> = Vec::new();
    let mut i: usize = 0;
    assert(ms.take(0) =~= Seq::<MethodPlanView>::empty());
    assert(r@.map_values(|b: TypeBound| type_bound_view(b)) =~= methods_bounds(ms.take(0)));
    while i < plan.methods.len()
        invariant
            0 <= i <= plan.methods@.len(),
            ms == plan.methods@.map_values(|m: MethodPlan| method_plan_view(m)),
            r@.map_values(|b: TypeBound| type_bound_view(b)) == methods_bounds(ms.take(i as int)),
        decreases plan.methods@.len() - i,
    {
        let m = &plan.methods[i];
        let ghost before = r@.map_values(|b: TypeBound| type_bound_view(b));
        let ghost mv = method_plan_view(*m);
        assert(mv == ms[i as int]);
        assert(mv.1 == m.params@.map_values(|p: ParamPlan| param_view(p)));
        let mut j: usize = 0;
        while j < m.params.len()
            invariant
                0 <= j <= m.params@.len(),
                mv.1 == m.params@.map_values(|p: ParamPlan| param_view(p)),
                r@.map_values(|b: TypeBound| type_bound_view(b)) == before + param_bounds(i as int, mv.1).take(j as int),
            decreases m.params@.len() - j,
        {
            let b = bound_for(i, Some(j), &m.params[j].ty);
            let ghost prev = r@;
            r.push(b);
            proof {
                assert(mv.1[j as int] == param_view(m.params@[j as int]));
                assert(param_bounds(i as int, mv.1)[j as int] == type_bound_view(b));
                assert(r@.map_values(|b: TypeBound| type_bound_view(b)) =~= prev.map_values(
                    |b: TypeBound| type_bound_view(b),
                ).push(type_bound_view(b)));
                assert(param_bounds(i as int, mv.1).take(j + 1) =~= param_bounds(i as int, mv.1).take(
                    j as int,
                ).push(type_bound_view(b)));
            }
            assert(r@.map_values(|b: TypeBound| type_bound_view(b)) =~= before + param_bounds(i as int, mv.1).take(j + 1));
            j = j + 1;
        }
        assert(param_bounds(i as int, mv.1).take(j as int) =~= param_bounds(i as int, mv.1));
        let ghost mid = r@;
        match &m.output {
            Some(t) => {
                let b = bound_for(i, None, t);
                r.push(b);
                proof {
                    assert(mv.2 == Some(t@));
                    assert(r@.map_values(|b: TypeBound| type_bound_view(b)) =~= mid.map_values(
                        |b: TypeBound| type_bound_view(b),
                    ).push(type_bound_view(b)));
                }
            },
            None => {
                assert(mv.2 is None);
            },
        }
        proof {
            assert(r@.map_values(|b: TypeBound| type_bound_view(b)) =~= before + method_bounds(i as int, mv));
            let p = ms.take(i + 1);
            assert(p.drop_last() =~= ms.take(i as int));
            assert(p.last() == mv);
            assert(r@.map_values(|b: TypeBound| type_bound_view(b)) =~= methods_bounds(p));
        }
        i = i + 1;
    }
    assert(ms.take(i as int) =~= ms);
    r
}

/// The bounds of the metadata function's generic parameters: each
/// `GenericForX`, bound by `X`, in order.
pub fn generic_param_bounds(plan: &DeclMetadataPlan) -> (r: Vec<(String, String)>)
    ensures
        r@.len() == plan.generic_params@.len(),
        forall|k: int|
            0 <= k < r@.len() ==> #[trigger] r@[k].0@ == "GenericFor"@ + plan.generic_params@[k]@
                && r@[k].1@ == plan.generic_params@[k]@,
{
    let mut r: Vec<(String, String)> = Vec::new();
    let mut i: usize = 0;
    while i < plan.generic_params.len()
        invariant
            0 <= i <= plan.generic_params@.len(),
            r@.len() == i,
            forall|k: int|
                0 <= k < i ==> #[trigger] r@[k].0@ == "GenericFor"@ + plan.generic_params@[k]@
                    && r@[k].1@ == plan.generic_params@[k]@,
        decreases plan.generic_params@.len() - i,
    {
        let x = &plan.generic_params[i];
        let param = String::from_str("GenericFor").concat(x.as_str());
        r.push((param, x.clone()));
        i = i + 1;
    }
    r
}

/// Whether the trait of an impl must be named by a path of more than one
/// segment (`path::Trait`, not `Trait`).
pub enum RequireQualifiedTraitPath {
    Yes,
    No,
}

/// Why an impl given to `impl_extensions` was refused.
#[derive(Debug, PartialEq, Eq, Structural)]
pub enum ImplError {
    /// The impl implements no trait.
    NotTraitImpl,
    /// The trait is named by a single identifier.
    UnqualifiedTrait,
}

impl ImplError {
    /// The message that the compiler shows for the error.
    pub fn message(&self) -> (r: &'static str)
        ensures
            self is NotTraitImpl ==> r@ == "Only implementation of traits are supported!"@,
            self is UnqualifiedTrait ==> r@ == "The implemented trait has to be referenced with a path, e.g. `impl xcq_extension_core::ExtensionCore for Runtime`."@,
    {
        match self {
            ImplError::NotTraitImpl => "Only implementation of traits are supported!",
            ImplError::UnqualifiedTrait => "The implemented trait has to be referenced with a path, e.g. `impl xcq_extension_core::ExtensionCore for Runtime`.",
        }
    }
}

/// An item of an impl: an associated type with its type, or anything else.
pub enum ImplItemModel {
    Type { ident: String, ty: TypeModel },
    Other,
}

/// An impl: the path of the trait it implements, if any, and its items.
pub struct ImplModel {
    pub trait_: Option<PathModel>,
    pub items: Vec<ImplItemModel>,
}

/// The trait of an impl, where the impl has one named as `require` asks.
pub open spec fn impl_trait(impl_: ImplModel, require: RequireQualifiedTraitPath) -> Result<PathModel, ImplError> {
    match impl_.trait_ {
        None => Err(ImplError::NotTraitImpl),
        Some(p) => if p.segments.len() > 1 || require is No {
            Ok(p)
        } else {
            Err(ImplError::UnqualifiedTrait)
        },
    }
}

/// The trait implemented by the impl.
pub fn extract_impl_trait(impl_: &ImplModel, require: RequireQualifiedTraitPath) -> (r: Result<&PathModel, ImplError>)
    ensures
        r matches Ok(p) ==> impl_trait(*impl_, require) == Ok::<PathModel, ImplError>(*p),
        r matches Err(e) ==> impl_trait(*impl_, require) == Err::<PathModel, ImplError>(e),
{
    match &impl_.trait_ {
        None => Err(ImplError::NotTraitImpl),
        Some(p) => {
            let unqualified_allowed = match require {
                RequireQualifiedTraitPath::No => true,
                RequireQualifiedTraitPath::Yes => false,
            };
            if p.segments.len() > 1 || unqualified_allowed {
                Ok(p)
            } else {
                Err(ImplError::UnqualifiedTrait)
            }
        },
    }
}

/// The type is a single identifier: the form in which an associated type
/// of an impl can stand as a generic parameter.
pub open spec fn single_ident(t: TypeModelView) -> bool {
    t matches TypeModelView::Path { qself: None, path } && !path.leading_colon
        && path.segments.len() == 1 && path.segments[0].args is Absent
}

/// Every associated type of every impl is a single identifier.
pub open spec fn assoc_types_are_idents(impls: Seq<ImplModel>) -> bool {
    forall|i: int, j: int|
        0 <= i < impls.len() && 0 <= j < impls[i].items.len() ==> (#[trigger] impls[i].items@[j] matches ImplItemModel::Type { ty, .. } ==> single_ident(ty@))
}

/// What `impl_extensions` generates for one impl: the module that holds
/// what was generated for its trait (which replaces the trait's last path
/// segment), and the associated types it passes as generic arguments to the
/// trait's metadata, each once.
pub struct ImplExtensionPlan {
    pub mod_name: String,
    pub generic_args: Vec<String>,
}

/// The associated types of the impl's items, in order.
pub open spec fn assoc_type_names(items: Seq<ImplItemModel>) -> Seq<Seq<char>>
    decreases items.len(),
{
    if items.len() == 0 {
        Seq::empty()
    } else {
        let ns = assoc_type_names(items.drop_last());
        match items.last() {
            ImplItemModel::Type { ty, .. } => ns.push(ty@->Path_path.segments[0].ident),
            ImplItemModel::Other => ns,
        }
    }
}

/// What `impl_extensions` generates for the impls, in order; the first
/// impl that implements no trait, or names its trait by a single
/// identifier, is refused.
pub open spec fn impl_plans(impls: Seq<ImplModel>) -> Result<Seq<(Seq<char>, Seq<Seq<char>>)>, ImplError>
    decreases impls.len(),
{
    if impls.len() == 0 {
        Ok(Seq::empty())
    } else {
        match impl_plans(impls.drop_last()) {
            Err(e) => Err(e),
            Ok(ps) => match impl_trait(impls.last(), RequireQualifiedTraitPath::Yes) {
                Err(e) => Err(e),
                Ok(p) => Ok(ps.push((
                    "decl_extension_for_"@ + crate::naming::snake_case(p.segments@.last().ident@),
                    dedup(assoc_type_names(impls.last().items@)),
                ))),
            },
        }
    }
}

/// The mathematical value of an impl's plan.
pub open spec fn impl_plan_view(p: ImplExtensionPlan) -> (Seq<char>, Seq<Seq<char>>) {
    (p.mod_name@, strs(p.generic_args@))
}

proof fn lemma_impl_plans_err(impls: Seq<ImplModel>, i: int)
    requires
        0 <= i <= impls.len(),
        impl_plans(impls.subrange(0, i)) is Err,
    ensures
        impl_plans(impls) == impl_plans(impls.subrange(0, i)),
    decreases impls.len() - i,
{
    if i < impls.len() {
        assert(impls.subrange(0, i + 1).drop_last() =~= impls.subrange(0, i));
        lemma_impl_plans_err(impls, i + 1);
    } else {
        assert(impls.subrange(0, i) =~= impls);
    }
}

/// The identifiers of the associated types among the items, each once.
fn assoc_type_idents(items: &Vec<ImplItemModel>) -> (r: Vec<String>)
    requires
        forall|j: int| 0 <= j < items@.len() ==> (#[trigger] items@[j] matches ImplItemModel::Type { ty, .. } ==> single_ident(ty@)),
    ensures
        strs(r@) == dedup(assoc_type_names(items@)),
{
    let mut all: Vec<String> = Vec::new();
    let mut i: usize = 0;
    assert(items@.subrange(0, 0) =~= Seq::<ImplItemModel>::empty());
    assert(strs(all@) =~= Seq::<Seq<char>>::empty());
    while i < items.len()
        invariant
            0 <= i <= items@.len(),
            forall|j: int| 0 <= j < items@.len() ==> (#[trigger] items@[j] matches ImplItemModel::Type { ty, .. } ==> single_ident(ty@)),
            strs(all@) == assoc_type_names(items@.subrange(0, i as int)),
        decreases items@.len() - i,
    {
        proof {
            let p = items@.subrange(0, i + 1);
            assert(p.drop_last() =~= items@.subrange(0, i as int));
            assert(p.last() == items@[i as int]);
        }
        match &items[i] {
            ImplItemModel::Type { ty, .. } => {
                match ty {
                    TypeModel::Path { path, .. } => {
                        proof {
                            lemma_view_segs(path.segments@);
                            lemma_strs_push(all@, path.segments@[0].ident);
                        }
                        all.push(path.segments[0].ident.clone());
                    },
                    _ => {},
                }
            },
            ImplItemModel::Other => {},
        }
        i = i + 1;
    }
    assert(items@.subrange(0, i as int) =~= items@);
    dedup_names(&all)
}

/// What `impl_extensions` generates for the impls of a runtime, in order.
pub fn impl_extension_plans(impls: &Vec<ImplModel>) -> (r: Result<Vec<ImplExtensionPlan>, ImplError>)
    requires
        assoc_types_are_idents(impls@),
    ensures
        r matches Ok(v) ==> impl_plans(impls@) == Ok::<Seq<(Seq<char>, Seq<Seq<char>>)>, ImplError>(v@.map_values(|p: ImplExtensionPlan| impl_plan_view(p))),
        r matches Err(e) ==> impl_plans(impls@) == Err::<Seq<(Seq<char>, Seq<Seq<char>>)>, ImplError>(e),
{
    let mut plans: Vec<ImplExtensionPlan> = Vec::new();
    let mut i: usize = 0;
    assert(impls@.subrange(0, 0) =~= Seq::<ImplModel>::empty());
    assert(plans@.map_values(|p: ImplExtensionPlan| impl_plan_view(p)) =~= Seq::<(Seq<char>, Seq<Seq<char>>)>::empty());
    while i < impls.len()
        invariant
            0 <= i <= impls@.len(),
            assoc_types_are_idents(impls@),
            impl_plans(impls@.subrange(0, i as int)) == Ok::<Seq<(Seq<char>, Seq<Seq<char>>)>, ImplError>(plans@.map_values(|p: ImplExtensionPlan| impl_plan_view(p))),
        decreases impls@.len() - i,
    {
        proof {
            let p = impls@.subrange(0, i + 1);
            assert(p.drop_last() =~= impls@.subrange(0, i as int));
            assert(p.last() == impls@[i as int]);
        }
        let trait_ = match extract_impl_trait(&impls[i], RequireQualifiedTraitPath::Yes) {
            Err(e) => {
                proof {
                    lemma_impl_plans_err(impls@, i + 1);
                }
                return Err(e);
            },
            Ok(p) => p,
        };
        let last = &trait_.segments[trait_.segments.len() - 1];
        let mod_name = generate_mod_name_for_trait(&last.ident);
        let generic_args = assoc_type_idents(&impls[i].items);
        let plan = ImplExtensionPlan { mod_name, generic_args };
        let ghost prev = plans@;
        plans.push(plan);
        assert(plans@.map_values(|p: ImplExtensionPlan| impl_plan_view(p)) =~= prev.map_values(|p: ImplExtensionPlan| impl_plan_view(p)).push(impl_plan_view(plan)));
        i = i + 1;
    }
    assert(impls@.subrange(0, i as int) =~= impls@);
    Ok(plans)
}

proof fn lemma_replace_twice(t: TypeModelView)
    ensures
        replace_assoc(replace_assoc(t)) == replace_assoc(t),
        assoc_names(replace_assoc(t)) == Seq::<Seq<char>>::empty(),
    decreases t,
{
    match t {
        TypeModelView::Path { qself, path } => {
            match qself {
                Some(q) => lemma_replace_twice(*q),
                None => {},
            }
            let rp = replaced_path(path);
            assert(replaced_path(rp) == rp);
            assert(path_assoc_names(rp) =~= Seq::<Seq<char>>::empty());
            assert(assoc_names(replace_assoc(t)) =~= Seq::<Seq<char>>::empty());
        },
        TypeModelView::Reference(b) => lemma_replace_twice(*b),
        TypeModelView::Ptr(b) => lemma_replace_twice(*b),
        TypeModelView::Slice(b) => lemma_replace_twice(*b),
        TypeModelView::Array(b) => lemma_replace_twice(*b),
        TypeModelView::Paren(b) => lemma_replace_twice(*b),
        TypeModelView::Tuple(ts) => lemma_replaces_twice(ts),
        TypeModelView::Other => {},
    }
}

proof fn lemma_replaces_twice(ts: Seq<TypeModelView>)
    ensures
        replace_assocs(replace_assocs(ts)) == replace_assocs(ts),
        assocs_names(replace_assocs(ts)) == Seq::<Seq<char>>::empty(),
        replace_assocs(ts).len() == ts.len(),
    decreases ts,
{
    if ts.len() > 0 {
        let init = ts.subrange(0, ts.len() - 1);
        lemma_replaces_twice(init);
        lemma_replace_twice(ts[ts.len() - 1]);
        let r = replace_assocs(ts);
        assert(r.subrange(0, r.len() - 1) =~= replace_assocs(init));
        assert(assocs_names(r) =~= Seq::<Seq<char>>::empty());
    }
}

/// Law: replacing the associated types is done in one pass. Replacing
/// again changes nothing, and no `Self::X` is left to replace.
pub proof fn law_replace_associated_types_once(t: TypeModelView)
    ensures
        replace_assoc(replace_assoc(t)) == replace_assoc(t),
        assoc_names(replace_assoc(t)) == Seq::<Seq<char>>::empty(),
{
    lemma_replace_twice(t);
}

/// Law: every name occurs once in `dedup(names)`, and the names it holds
/// are those of `names`.
pub proof fn law_dedup(names: Seq<Seq<char>>)
    ensures
        forall|i: int, j: int|
            0 <= i < j < dedup(names).len() ==> dedup(names)[i] != dedup(names)[j],
        forall|x: Seq<char>| dedup(names).contains(x) <==> names.contains(x),
    decreases names.len(),
{
    if names.len() > 0 {
        let init = names.drop_last();
        law_dedup(init);
        let d = dedup(init);
        assert forall|x: Seq<char>| names.contains(x) <==> (init.contains(x) || x == names.last()) by {
            if names.contains(x) {
                let k = choose|k: int| 0 <= k < names.len() && names[k] == x;
                if k < names.len() - 1 {
                    assert(init[k] == x);
                }
            }
            if init.contains(x) {
                let k = choose|k: int| 0 <= k < init.len() && init[k] == x;
                assert(names[k] == x);
            }
            if x == names.last() {
                assert(names[names.len() - 1] == x);
            }
        }
        assert forall|x: Seq<char>| d.push(names.last()).contains(x) <==> (d.contains(x) || x == names.last()) by {
            let r = d.push(names.last());
            if r.contains(x) {
                let k = choose|k: int| 0 <= k < r.len() && r[k] == x;
                if k < d.len() {
                    assert(d[k] == x);
                }
            }
            if d.contains(x) {
                let k = choose|k: int| 0 <= k < d.len() && d[k] == x;
                assert(r[k] == x);
            }
            if x == names.last() {
                assert(r[r.len() - 1] == x);
            }
        }
        if !d.contains(names.last()) {
            let r = d.push(names.last());
            assert forall|i: int, j: int| 0 <= i < j < r.len() implies r[i] != r[j] by {
                if j == r.len() - 1 {
                    assert(d[i] == r[i]);
                }
            }
        }
    }
}

/// What `decl_extensions` generates for an extension trait: the module
/// that holds it, whether the trait has a configuration, the methods (the
/// variants of the call enum), the extension's identifier, and its
/// metadata.
pub struct DeclExtensionPlan {
    pub mod_name: String,
    pub has_config: bool,
    pub methods: Vec<MethodModel>,
    pub extension_id: u64,
    pub metadata: DeclMetadataPlan,
}

/// What `decl_extensions` generates for an extension trait; a method
/// argument that is no plain identifier is refused.
pub fn decl_extension_inner(item_trait: &TraitModel) -> (r: Result<DeclExtensionPlan, DeclError>)
    requires
        no_receivers(item_trait.items@),
    ensures
        r is Err <==> method_list(item_trait.items@) is None,
        r matches Ok(p) ==> {
            &&& p.mod_name@ == "decl_extension_for_"@ + crate::naming::snake_case(item_trait.ident@)
            &&& p.has_config == has_config(item_trait.items@)
            &&& method_list(item_trait.items@) == Some(p.methods@.map_values(|m: MethodModel| method_view(m)))
            &&& p.extension_id == crate::naming::xxhash64(crate::naming::extension_hash_input(item_trait.ident@, item_trait.items@))
            &&& decl_metadata_view(p.metadata) == decl_metadata(*item_trait)
        },
{
    let mod_name = generate_mod_name_for_trait(&item_trait.ident);
    let has_config = trait_has_config(&item_trait.items);
    let methods = match methods(&item_trait.items) {
        Ok(m) => m,
        Err(e) => return Err(e),
    };
    let extension_id = crate::naming::calculate_hash(&item_trait.ident, item_trait.items.as_slice());
    let metadata = decl_metadata_plan(item_trait);
    Ok(DeclExtensionPlan { mod_name, has_config, methods, extension_id, metadata })
}

/// The identifier that replaces the path where it is `Self::X`:
/// `GenericForX`; `None` for any other path.
pub fn self_assoc_replacement(p: &PathModel) -> (r: Option<String>)
    ensures
        r matches Some(s) ==> replaced_path(p@) != p@ && s@ == "GenericFor"@ + p@.segments[1].ident
            && path_assoc_names(p@) == seq![p@.segments[1].ident],
        r is None ==> replaced_path(p@) == p@ && path_assoc_names(p@) == Seq::<Seq<char>>::empty(),
{
    proof {
        lemma_view_segs(p.segments@);
    }
    if p.segments.len() == 2 && str_eq(p.segments[0].ident.as_str(), "Self") {
        proof {
            reveal_strlit("Self");
            reveal_strlit("GenericFor");
            assert(replaced_path(p@).segments.len() == 1);
        }
        Some(String::from_str("GenericFor").concat(p.segments[1].ident.as_str()))
    } else {
        None
    }
}

/// Law: each impl reaches the module that `decl_extensions` generates for
/// the trait it implements (`decl_extension_for_` and the trait's name in
/// snake case), the trait's name being the last segment of the path that
/// names it, whatever the path's length; and it passes its own associated
/// types, each once, in order. There is one plan per impl.
pub proof fn law_impl_reaches_decl_module(impls: Seq<ImplModel>, k: int)
    requires
        impl_plans(impls) is Ok,
        0 <= k < impls.len(),
    ensures
        impl_plans(impls)->Ok_0.len() == impls.len(),
        impl_trait(impls[k], RequireQualifiedTraitPath::Yes) matches Ok(p) && impl_plans(impls)->Ok_0[k].0
            == "decl_extension_for_"@ + crate::naming::snake_case(
            p.segments@[p.segments@.len() - 1].ident@,
        ),
        impl_plans(impls)->Ok_0[k].1 == dedup(assoc_type_names(impls[k].items@)),
    decreases impls.len(),
{
    let init = impls.drop_last();
    if k < impls.len() - 1 {
        law_impl_reaches_decl_module(init, k);
        assert(impls[k] == init[k]);
    } else if init.len() > 0 {
        law_impl_reaches_decl_module(init, 0);
    }
}

proof fn lemma_typed_args_split(a: Seq<FnArgModel>, b: Seq<FnArgModel>)
    ensures
        typed_args(a + b) == match (typed_args(a), typed_args(b)) {
            (Some(x), Some(y)) => Some(x + y),
            _ => None::<Seq<(Seq<char>, TypeModelView)>>,
        },
    decreases b.len(),
{
    if b.len() == 0 {
        assert(a + b =~= a);
        if let Some(x) = typed_args(a) {
            assert(x + Seq::<(Seq<char>, TypeModelView)>::empty() =~= x);
        }
    } else {
        lemma_typed_args_split(a, b.drop_last());
        assert((a + b).drop_last() =~= a + b.drop_last());
        assert((a + b).last() == b.last());
        if let (Some(x), Some(y)) = (typed_args(a), typed_args(b.drop_last())) {
            match b.last() {
                FnArgModel::Typed { pat, ty } => {
                    if let Some(id) = pat.ident {
                        assert((x + y).push((id@, ty@)) =~= x + y.push((id@, ty@)));
                    }
                },
                FnArgModel::Receiver => {},
            }
        }
    }
}

/// Law: a method's arguments are read in their order: those of `a + b` are
/// those of `a` followed by those of `b`, and an argument that is no plain
/// identifier, anywhere, refuses the whole list.
pub proof fn law_typed_args_in_order(a: Seq<FnArgModel>, b: Seq<FnArgModel>)
    ensures
        typed_args(a + b) == match (typed_args(a), typed_args(b)) {
            (Some(x), Some(y)) => Some(x + y),
            _ => None::<Seq<(Seq<char>, TypeModelView)>>,
        },
{
    lemma_typed_args_split(a, b);
}

proof fn lemma_method_list_split(a: Seq<TraitItemModel>, b: Seq<TraitItemModel>)
    ensures
        method_list(a + b) == match (method_list(a), method_list(b)) {
            (Some(x), Some(y)) => Some(x + y),
            _ => None::<Seq<(Seq<char>, Seq<(Seq<char>, TypeModelView)>)>>,
        },
    decreases b.len(),
{
    if b.len() == 0 {
        assert(a + b =~= a);
        if let Some(x) = method_list(a) {
            assert(x + Seq::<(Seq<char>, Seq<(Seq<char>, TypeModelView)>)>::empty() =~= x);
        }
    } else {
        lemma_method_list_split(a, b.drop_last());
        assert((a + b).drop_last() =~= a + b.drop_last());
        assert((a + b).last() == b.last());
        if let (Some(x), Some(y)) = (method_list(a), method_list(b.drop_last())) {
            match b.last() {
                TraitItemModel::Fn(sig) => {
                    if let Some(args) = typed_args(sig.inputs@) {
                        assert((x + y).push((sig.ident@, args)) =~= x + y.push((sig.ident@, args)));
                    }
                },
                _ => {},
            }
        }
    }
}

/// Law: the methods of a trait are read in their order: those of the items
/// `a + b` are those of `a` followed by those of `b`; a method with an
/// argument that is no plain identifier, anywhere, refuses them all. A
/// single method gives its name with its arguments, each name with its
/// type, in order.
pub proof fn law_methods_in_order(a: Seq<TraitItemModel>, b: Seq<TraitItemModel>, sig: SignatureModel)
    ensures
        method_list(a + b) == match (method_list(a), method_list(b)) {
            (Some(x), Some(y)) => Some(x + y),
            _ => None::<Seq<(Seq<char>, Seq<(Seq<char>, TypeModelView)>)>>,
        },
        method_list(seq![TraitItemModel::Fn(sig)]) == match typed_args(sig.inputs@) {
            Some(args) => Some(seq![(sig.ident@, args)]),
            None => None,
        },
{
    lemma_method_list_split(a, b);
    let one = seq![TraitItemModel::Fn(sig)];
    assert(one.drop_last() =~= Seq::<TraitItemModel>::empty());
    assert(one.last() == TraitItemModel::Fn(sig));
    assert(one.len() == 1);
    assert(method_list(one.drop_last()) == Some(Seq::<(Seq<char>, Seq<(Seq<char>, TypeModelView)>)>::empty()));
    if let Some(args) = typed_args(sig.inputs@) {
        assert(Seq::<(Seq<char>, Seq<(Seq<char>, TypeModelView)>)>::empty().push((sig.ident@, args))
            =~= seq![(sig.ident@, args)]);
    }
}

proof fn lemma_method_plans_split(a: Seq<TraitItemModel>, b: Seq<TraitItemModel>, config: bool)
    ensures
        method_plans(a + b, config) == method_plans(a, config) + method_plans(b, config),
    decreases b.len(),
{
    if b.len() == 0 {
        assert(a + b =~= a);
        assert(method_plans(a, config) + method_plans(b, config) =~= method_plans(a, config));
    } else {
        lemma_method_plans_split(a, b.drop_last(), config);
        assert((a + b).drop_last() =~= a + b.drop_last());
        assert((a + b).last() == b.last());
        assert(method_plans(a + b, config) =~= method_plans(a, config) + method_plans(b, config));
    }
}

proof fn lemma_param_plans_split(a: Seq<FnArgModel>, b: Seq<FnArgModel>, config: bool)
    ensures
        param_plans(a + b, config) == param_plans(a, config) + param_plans(b, config),
    decreases b.len(),
{
    if b.len() == 0 {
        assert(a + b =~= a);
        assert(param_plans(a, config) + param_plans(b, config) =~= param_plans(a, config));
    } else {
        lemma_param_plans_split(a, b.drop_last(), config);
        assert((a + b).drop_last() =~= a + b.drop_last());
        assert((a + b).last() == b.last());
        assert(param_plans(a + b, config) =~= param_plans(a, config) + param_plans(b, config));
    }
}

/// Law: the metadata lists the methods, and each method's parameters, in
/// the order the trait declares them: the plans of `a + b` are those of `a`
/// followed by those of `b`.
pub proof fn law_metadata_in_order(
    a: Seq<TraitItemModel>,
    b: Seq<TraitItemModel>,
    c: Seq<FnArgModel>,
    d: Seq<FnArgModel>,
    config: bool,
)
    ensures
        method_plans(a + b, config) == method_plans(a, config) + method_plans(b, config),
        param_plans(c + d, config) == param_plans(c, config) + param_plans(d, config),
{
    lemma_method_plans_split(a, b, config);
    lemma_param_plans_split(c, d, config);
}

} // verus!
