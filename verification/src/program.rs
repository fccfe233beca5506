//! The definition of a query program, as the `#[xcq::program]` attribute
//! reads it from a module: the calls it declares (`#[xcq::call_def]`) and
//! its entry point (`#[xcq::entrypoint]`); and what the generated code
//! checks of each call's return type.
use vstd::prelude::*;
use crate::syntax::{
    path_is_ident, str_eq, is_ident, ArgsModel, FnArgModel, GenericArgModel, PathModel,
    SegmentModel, SignatureModel, TypeModel,
};
use crate::types::{type_encoding, type_wf, PrimitiveType, TypeView, XcqType};
use crate::type_info::XcqTypeInfo;

verus! {

/// Why a program module was refused.
#[derive(Debug, PartialEq, Eq, Structural)]
pub enum ProgramError {
    NoContent,
    ExpectedArguments,
    ExpectedValue,
    InvalidLiteral,
    InvalidExternTypes,
    InvalidCallDefAttribute,
    OnlyOneEntrypoint,
    InvalidAttribute,
    NoEntrypoint,
    MissingExtensionId,
    CallDefExpectedItemFn,
    EntrypointArgsMustBeOwned,
    EntrypointExpectedTypedArgs,
    EntrypointExpectedItemFn,
    ExpectedVec,
    ExpectedReturnType,
    ExpectedReturnPath,
}

impl ProgramError {
    /// The message that the compiler shows for the error.
    pub fn message(&self) -> (r: &'static str)
        ensures
            r@ == self.spec_message(),
    {
        match self {
            ProgramError::NoContent => "No content inside the XCQ program definition",
            ProgramError::ExpectedArguments => "expected attribute arguments in parentheses",
            ProgramError::ExpectedValue => "expected `=`",
            ProgramError::InvalidLiteral => "expected integer literal",
            ProgramError::InvalidExternTypes => "expected a bracketed list of types",
            ProgramError::InvalidCallDefAttribute => "Invalid attribute for `call_def`",
            ProgramError::OnlyOneEntrypoint => "Only one entrypoint function is allowed",
            ProgramError::InvalidAttribute => "Invalid attribute, expected `#[xcq::call_def]` or `#[xcq::entrypoint]`",
            ProgramError::NoEntrypoint => "No entrypoint function found",
            ProgramError::MissingExtensionId => "Missing extension_id for xcq::call_def, expected #[xcq::call_def(extension_id = SOME_U64)]",
            ProgramError::CallDefExpectedItemFn => "Invalid xcq::call_def, expected item fn",
            ProgramError::EntrypointArgsMustBeOwned => "entrypoint args must be owned types",
            ProgramError::EntrypointExpectedTypedArgs => "Invalid xcq::entrypoint, expected fn to have typed arguments",
            ProgramError::EntrypointExpectedItemFn => "Invalid xcq::entrypoint, expected item fn",
            ProgramError::ExpectedVec => "Expected Vec<_>",
            ProgramError::ExpectedReturnType => "expected function to have a return type",
            ProgramError::ExpectedReturnPath => "expected function return type to be a path",
        }
    }

    pub open spec fn spec_message(&self) -> Seq<char> {
        match self {
            ProgramError::NoContent => "No content inside the XCQ program definition"@,
            ProgramError::ExpectedArguments => "expected attribute arguments in parentheses"@,
            ProgramError::ExpectedValue => "expected `=`"@,
            ProgramError::InvalidLiteral => "expected integer literal"@,
            ProgramError::InvalidExternTypes => "expected a bracketed list of types"@,
            ProgramError::InvalidCallDefAttribute => "Invalid attribute for `call_def`"@,
            ProgramError::OnlyOneEntrypoint => "Only one entrypoint function is allowed"@,
            ProgramError::InvalidAttribute => "Invalid attribute, expected `#[xcq::call_def]` or `#[xcq::entrypoint]`"@,
            ProgramError::NoEntrypoint => "No entrypoint function found"@,
            ProgramError::MissingExtensionId => "Missing extension_id for xcq::call_def, expected #[xcq::call_def(extension_id = SOME_U64)]"@,
            ProgramError::CallDefExpectedItemFn => "Invalid xcq::call_def, expected item fn"@,
            ProgramError::EntrypointArgsMustBeOwned => "entrypoint args must be owned types"@,
            ProgramError::EntrypointExpectedTypedArgs => "Invalid xcq::entrypoint, expected fn to have typed arguments"@,
            ProgramError::EntrypointExpectedItemFn => "Invalid xcq::entrypoint, expected item fn"@,
            ProgramError::ExpectedVec => "Expected Vec<_>"@,
            ProgramError::ExpectedReturnType => "expected function to have a return type"@,
            ProgramError::ExpectedReturnPath => "expected function return type to be a path"@,
        }
    }
}

/// The value of an argument inside an attribute: the literal as written,
/// and the types it lists where it is a bracketed list of types.
pub struct MetaValueModel {
    pub literal: String,
    pub types: Option<Vec<TypeModel>>,
}

/// An argument inside an attribute: `path` or `path = value`.
pub struct MetaArgModel {
    pub path: PathModel,
    pub value: Option<MetaValueModel>,
}

/// An attribute: its path, and its arguments where it has parentheses.
pub struct AttrModel {
    pub path: PathModel,
    pub args: Option<Vec<MetaArgModel>>,
}

/// An item of a program module: its attributes (`None` for items that
/// carry none, such as verbatim tokens), its signature where it is a
/// function, and its signature where it declares a function without a body
/// (`fn balance(..) -> Balance;`, which a module holds as verbatim tokens).
pub struct ProgramItemModel {
    pub attrs: Option<Vec<AttrModel>>,
    pub item_fn: Option<SignatureModel>,
    pub fn_decl: Option<SignatureModel>,
}

/// The signature by which an item declares a call: that of a function, or
/// that of a function declared without a body.
pub open spec fn call_sig(item: ProgramItemModel) -> Option<SignatureModel> {
    match item.item_fn {
        Some(sig) => Some(sig),
        None => item.fn_decl,
    }
}

/// The types listed by `extern_types = [...]`.
pub struct ExternTypesAttr {
    pub types: Vec<TypeModel>,
}

/// A call that the program declares: the function at position `index` of
/// the module, with its name and return type, the extension it calls, and
/// the index of the method where the attribute gives it (the generated
/// program checks that method's return type).
pub struct CallDef {
    pub index: usize,
    pub ident: String,
    pub output: Option<TypeModel>,
    pub extension_id: u64,
    pub call_index: Option<u32>,
    pub extern_types: Option<ExternTypesAttr>,
}

/// An argument of the entry point: a group of calls (`Vec<C>`, with `ty`
/// the call type `C`) or a single call (`ty`).
pub struct ArgType {
    pub multi: bool,
    pub ty: TypeModel,
}

/// The entry point: the function at position `index`, its name, and its
/// arguments.
pub struct EntrypointDef {
    pub index: usize,
    pub ident: String,
    pub arg_types: Vec<ArgType>,
}

/// A program definition.
pub struct Def {
    pub calls: Vec<CallDef>,
    pub entrypoint: EntrypointDef,
}

/// The value of an integer literal, parsed as a `u64` by syn (`None` where
/// the text is no integer literal or the value does not fit).
pub uninterp spec fn lit_u64(text: Seq<char>) -> Option<u64>;

/// The value of an integer literal, parsed as a `u32` by syn.
pub uninterp spec fn lit_u32(text: Seq<char>) -> Option<u32>;

/// Calls syn: parses `text` as a `LitInt` and takes its value with
/// `base10_parse::<u64>`. Claimed: the result is `lit_u64(text)`, a
/// function of the text alone.
#[verifier::external_body]
fn parse_lit_u64(text: &str) -> (r: Option<u64>)
    ensures
        r == lit_u64(text@),
{
    match syn::parse_str::<syn::LitInt>(text) {
        Ok(lit) => lit.base10_parse::<u64>().ok(),
        Err(_) => None,
    }
}

/// Calls syn: parses `text` as a `LitInt` and takes its value with
/// `base10_parse::<u32>`. Claimed: the result is `lit_u32(text)`, a
/// function of the text alone.
#[verifier::external_body]
fn parse_lit_u32(text: &str) -> (r: Option<u32>)
    ensures
        r == lit_u32(text@),
{
    match syn::parse_str::<syn::LitInt>(text) {
        Ok(lit) => lit.base10_parse::<u32>().ok(),
        Err(_) => None,
    }
}

/// The attribute's path starts with `root`.
pub open spec fn is_root_attr(a: AttrModel, root: Seq<char>) -> bool {
    a.path.segments.len() > 0 && a.path.segments@[0].ident@ == root
}

/// The position of the first attribute whose path starts with `root`.
pub open spec fn first_root_attr(attrs: Seq<AttrModel>, root: Seq<char>) -> Option<int>
    decreases attrs.len(),
{
    if attrs.len() == 0 {
        None
    } else if is_root_attr(attrs[0], root) {
        Some(0)
    } else {
        match first_root_attr(attrs.drop_first(), root) {
            Some(k) => Some(k + 1),
            None => None,
        }
    }
}

proof fn lemma_first_root_attr(attrs: Seq<AttrModel>, root: Seq<char>, k: int)
    requires
        0 <= k <= attrs.len(),
        forall|j: int| 0 <= j < k ==> !is_root_attr(#[trigger] attrs[j], root),
    ensures
        k < attrs.len() && is_root_attr(attrs[k], root) ==> first_root_attr(attrs, root) == Some(k),
        k == attrs.len() ==> first_root_attr(attrs, root) is None,
    decreases k,
{
    if k > 0 {
        let rest = attrs.drop_first();
        assert forall|j: int| 0 <= j < k - 1 implies !is_root_attr(#[trigger] rest[j], root) by {
            assert(rest[j] == attrs[j + 1]);
        }
        assert(!is_root_attr(attrs[0], root));
        lemma_first_root_attr(rest, root, k - 1);
        if k < attrs.len() {
            assert(rest[k - 1] == attrs[k]);
        }
    }
}

/// The position of the first attribute whose path starts with `root`
/// (`xcq` for query programs): the attribute that the generator takes.
pub fn first_root_attr_position(attrs: &Vec<AttrModel>, root: &str) -> (r: Option<usize>)
    ensures
        r matches Some(k) ==> k < attrs@.len() && is_root_attr(attrs@[k as int], root@)
            && first_root_attr(attrs@, root@) == Some(k as int),
        r is None ==> first_root_attr(attrs@, root@) is None,
{
    let mut i: usize = 0;
    while i < attrs.len()
        invariant
            0 <= i <= attrs@.len(),
            forall|j: int| 0 <= j < i ==> !is_root_attr(#[trigger] attrs@[j], root@),
        decreases attrs@.len() - i,
    {
        let a = &attrs[i];
        if a.path.segments.len() > 0 && str_eq(a.path.segments[0].ident.as_str(), root) {
            proof {
                lemma_first_root_attr(attrs@, root@, i as int);
            }
            return Some(i);
        }
        i = i + 1;
    }
    proof {
        lemma_first_root_attr(attrs@, root@, i as int);
    }
    None
}

/// Takes the first attribute whose path starts with `root` out of `attrs`,
/// where `models` describes the attributes one for one: that attribute is
/// returned and the others keep their order; where there is none, nothing
/// changes.
pub fn take_first_root_attr<T>(attrs: &mut Vec<T>, models: &Vec<AttrModel>, root: &str) -> (r:
    Option<T>)
    requires
        old(attrs)@.len() == models@.len(),
    ensures
        first_root_attr(models@, root@) matches Some(k) ==> r == Some(old(attrs)@[k])
            && final(attrs)@ == old(attrs)@.remove(k),
        first_root_attr(models@, root@) is None ==> r is None && final(attrs)@ == old(attrs)@,
{
    match first_root_attr_position(models, root) {
        Some(k) => Some(attrs.remove(k)),
        None => None,
    }
}

/// Takes the first `#[xcq::...]` attribute out of an item's attributes.
pub fn take_first_xcq_attr<T>(attrs: &mut Vec<T>, models: &Vec<AttrModel>) -> (r: Option<T>)
    requires
        old(attrs)@.len() == models@.len(),
    ensures
        first_root_attr(models@, "xcq"@) matches Some(k) ==> r == Some(old(attrs)@[k])
            && final(attrs)@ == old(attrs)@.remove(k),
        first_root_attr(models@, "xcq"@) is None ==> r is None && final(attrs)@ == old(attrs)@,
{
    take_first_root_attr(attrs, models, "xcq")
}

/// What the arguments of `#[xcq::call_def(...)]` give, read one after the
/// other: a later argument overrides an earlier one with the same name.
pub type CallDefArgs = (Option<u64>, Option<u32>, Option<ExternTypesAttr>);

/// One argument of `#[xcq::call_def(...)]` applied to what the earlier ones
/// gave.
pub open spec fn call_def_arg(s: CallDefArgs, a: MetaArgModel) -> Result<CallDefArgs, ProgramError> {
    if path_is_ident(a.path, "extension_id"@) {
        match a.value {
            None => Err(ProgramError::ExpectedValue),
            Some(v) => match lit_u64(v.literal@) {
                None => Err(ProgramError::InvalidLiteral),
                Some(n) => Ok((Some(n), s.1, s.2)),
            },
        }
    } else if path_is_ident(a.path, "call_index"@) {
        match a.value {
            None => Err(ProgramError::ExpectedValue),
            Some(v) => match lit_u32(v.literal@) {
                None => Err(ProgramError::InvalidLiteral),
                Some(n) => Ok((s.0, Some(n), s.2)),
            },
        }
    } else if path_is_ident(a.path, "extern_types"@) {
        match a.value {
            None => Err(ProgramError::ExpectedValue),
            Some(v) => match v.types {
                None => Err(ProgramError::InvalidExternTypes),
                Some(ts) => Ok((s.0, s.1, Some(ExternTypesAttr { types: ts }))),
            },
        }
    } else {
        Err(ProgramError::InvalidCallDefAttribute)
    }
}

/// The arguments of `#[xcq::call_def(...)]`, read in order; the first
/// error ends the reading.
pub open spec fn call_def_args(args: Seq<MetaArgModel>) -> Result<CallDefArgs, ProgramError>
    decreases args.len(),
{
    if args.len() == 0 {
        Ok((None, None, None))
    } else {
        match call_def_args(args.drop_last()) {
            Err(e) => Err(e),
            Ok(s) => call_def_arg(s, args.last()),
        }
    }
}

proof fn lemma_call_def_args_err(args: Seq<MetaArgModel>, i: int)
    requires
        0 <= i <= args.len(),
        call_def_args(args.subrange(0, i)) is Err,
    ensures
        call_def_args(args) == call_def_args(args.subrange(0, i)),
    decreases args.len() - i,
{
    if i < args.len() {
        let p = args.subrange(0, i + 1);
        assert(p.drop_last() =~= args.subrange(0, i));
        lemma_call_def_args_err(args, i + 1);
    } else {
        assert(args.subrange(0, i) =~= args);
    }
}

/// Reads the arguments of `#[xcq::call_def(...)]`.
fn read_call_def_args(args: Vec<MetaArgModel>) -> (r: Result<CallDefArgs, ProgramError>)
    ensures
        r == call_def_args(args@),
{
    let ghost all = args@;
    let n = args.len();
    let mut rest = args;
    let mut state: CallDefArgs = (None, None, None);
    let mut i: usize = 0;
    assert(all.subrange(0, 0) =~= Seq::<MetaArgModel>::empty());
    while rest.len() > 0
        invariant
            all == args@,
            all.len() == n,
            0 <= i <= all.len(),
            rest@ == all.subrange(i as int, all.len() as int),
            call_def_args(all.subrange(0, i as int)) == Ok::<CallDefArgs, ProgramError>(state),
        decreases rest@.len(),
    {
        let a = rest.remove(0);
        proof {
            assert(a == all[i as int]);
            let p = all.subrange(0, i + 1);
            assert(p.drop_last() =~= all.subrange(0, i as int));
            assert(p.last() == a);
            assert(call_def_args(p) == call_def_arg(state, a));
        }
        let step = read_call_def_arg(state, a);
        match step {
            Err(e) => {
                proof {
                    assert(call_def_args(all.subrange(0, i + 1)) == Err::<CallDefArgs, ProgramError>(e));
                    lemma_call_def_args_err(all, i + 1);
                    assert(call_def_args(all) == Err::<CallDefArgs, ProgramError>(e));
                }
                return Err(e);
            },
            Ok(s) => {
                state = s;
            },
        }
        i = i + 1;
        assert(rest@ =~= all.subrange(i as int, all.len() as int));
    }
    assert(all.subrange(0, i as int) =~= all);
    Ok(state)
}

fn read_call_def_arg(s: CallDefArgs, a: MetaArgModel) -> (r: Result<CallDefArgs, ProgramError>)
    ensures
        r == call_def_arg(s, a),
{
    if is_ident(&a.path, "extension_id") {
        match a.value {
            None => Err(ProgramError::ExpectedValue),
            Some(v) => match parse_lit_u64(v.literal.as_str()) {
                None => Err(ProgramError::InvalidLiteral),
                Some(n) => Ok((Some(n), s.1, s.2)),
            },
        }
    } else if is_ident(&a.path, "call_index") {
        match a.value {
            None => Err(ProgramError::ExpectedValue),
            Some(v) => match parse_lit_u32(v.literal.as_str()) {
                None => Err(ProgramError::InvalidLiteral),
                Some(n) => Ok((s.0, Some(n), s.2)),
            },
        }
    } else if is_ident(&a.path, "extern_types") {
        match a.value {
            None => Err(ProgramError::ExpectedValue),
            Some(v) => match v.types {
                None => Err(ProgramError::InvalidExternTypes),
                Some(ts) => Ok((s.0, s.1, Some(ExternTypesAttr { types: ts }))),
            },
        }
    } else {
        Err(ProgramError::InvalidCallDefAttribute)
    }
}

/// The call declared by the item at `index`.
pub open spec fn call_def_from(
    index: usize,
    item_fn: Option<SignatureModel>,
    args: CallDefArgs,
) -> Result<CallDef, ProgramError> {
    match args.0 {
        None => Err(ProgramError::MissingExtensionId),
        Some(extension_id) => match item_fn {
            None => Err(ProgramError::CallDefExpectedItemFn),
            Some(sig) => Ok(
                CallDef {
                    index,
                    ident: sig.ident,
                    output: sig.output,
                    extension_id,
                    call_index: args.1,
                    extern_types: args.2,
                },
            ),
        },
    }
}

impl CallDef {
    /// The call declared by the item at `index` (by the signature of a
    /// function, or of a function declared without a body), with what the
    /// attribute's arguments gave: the extension identifier, then a
    /// signature are required, in that order; the call index may be left
    /// out.
    pub fn try_from(
        index: usize,
        item_fn: Option<SignatureModel>,
        extension_id: Option<u64>,
        call_index: Option<u32>,
        extern_types: Option<ExternTypesAttr>,
    ) -> (r: Result<CallDef, ProgramError>)
        ensures
            r == call_def_from(index, item_fn, (extension_id, call_index, extern_types)),
    {
        let extension_id = match extension_id {
            None => return Err(ProgramError::MissingExtensionId),
            Some(id) => id,
        };
        let sig = match item_fn {
            None => return Err(ProgramError::CallDefExpectedItemFn),
            Some(sig) => sig,
        };
        Ok(
            CallDef {
                index,
                ident: sig.ident,
                output: sig.output,
                extension_id,
                call_index,
                extern_types,
            },
        )
    }
}

/// Some segment of the path is `Vec`.
pub open spec fn mentions_vec(segments: Seq<SegmentModel>) -> bool {
    exists|j: int| 0 <= j < segments.len() && segments[j].ident@ == "Vec"@
}

/// The `T` of a type written `Vec<T>` (its first segment is `Vec`, and its
/// first generic argument a type).
pub open spec fn inner_vec_type(ty: TypeModel) -> Option<TypeModel> {
    match ty {
        TypeModel::Path { path, .. } => if path.segments.len() > 0 && path.segments@[0].ident@
            == "Vec"@ {
            match path.segments@[0].args {
                ArgsModel::AngleBracketed(a) => if a.len() > 0 {
                    match a@[0] {
                        GenericArgModel::Type(t) => Some(t),
                        _ => None,
                    }
                } else {
                    None
                },
                _ => None,
            }
        } else {
            None
        },
        _ => None,
    }
}

/// The `T` of `Vec<T>`; anything else is refused.
pub fn extract_inner_type(ty: TypeModel) -> (r: Result<TypeModel, ProgramError>)
    ensures
        inner_vec_type(ty) matches Some(t) ==> r == Ok::<TypeModel, ProgramError>(t),
        inner_vec_type(ty) is None ==> r == Err::<TypeModel, ProgramError>(ProgramError::ExpectedVec),
{
    match ty {
        TypeModel::Path { qself, path } => {
            let mut segments = path.segments;
            if segments.len() > 0 && str_eq(segments[0].ident.as_str(), "Vec") {
                let first = segments.remove(0);
                match first.args {
                    ArgsModel::AngleBracketed(mut a) => {
                        if a.len() > 0 {
                            match a.remove(0) {
                                GenericArgModel::Type(t) => Ok(t),
                                _ => Err(ProgramError::ExpectedVec),
                            }
                        } else {
                            Err(ProgramError::ExpectedVec)
                        }
                    },
                    _ => Err(ProgramError::ExpectedVec),
                }
            } else {
                Err(ProgramError::ExpectedVec)
            }
        },
        _ => Err(ProgramError::ExpectedVec),
    }
}

/// What an argument of the entry point is: a typed argument whose type is a
/// path; a group of calls where a segment of the path is `Vec`.
pub open spec fn arg_type_of(arg: FnArgModel) -> Result<ArgType, ProgramError> {
    match arg {
        FnArgModel::Receiver => Err(ProgramError::EntrypointExpectedTypedArgs),
        FnArgModel::Typed { pat, ty } => match ty {
            TypeModel::Path { path, .. } => if mentions_vec(path.segments@) {
                match inner_vec_type(ty) {
                    Some(t) => Ok(ArgType { multi: true, ty: t }),
                    None => Err(ProgramError::ExpectedVec),
                }
            } else {
                Ok(ArgType { multi: false, ty })
            },
            _ => Err(ProgramError::EntrypointArgsMustBeOwned),
        },
    }
}

/// The arguments of the entry point, read in order; the first error ends
/// the reading.
pub open spec fn arg_types_of(args: Seq<FnArgModel>) -> Result<Seq<ArgType>, ProgramError>
    decreases args.len(),
{
    if args.len() == 0 {
        Ok(Seq::empty())
    } else {
        match arg_types_of(args.drop_last()) {
            Err(e) => Err(e),
            Ok(ts) => match arg_type_of(args.last()) {
                Err(e) => Err(e),
                Ok(t) => Ok(ts.push(t)),
            },
        }
    }
}

proof fn lemma_arg_types_err(args: Seq<FnArgModel>, i: int)
    requires
        0 <= i <= args.len(),
        arg_types_of(args.subrange(0, i)) is Err,
    ensures
        arg_types_of(args) == arg_types_of(args.subrange(0, i)),
    decreases args.len() - i,
{
    if i < args.len() {
        let p = args.subrange(0, i + 1);
        assert(p.drop_last() =~= args.subrange(0, i));
        lemma_arg_types_err(args, i + 1);
    } else {
        assert(args.subrange(0, i) =~= args);
    }
}

fn arg_type(arg: FnArgModel) -> (r: Result<ArgType, ProgramError>)
    ensures
        r == arg_type_of(arg),
{
    match arg {
        FnArgModel::Receiver => Err(ProgramError::EntrypointExpectedTypedArgs),
        FnArgModel::Typed { pat, ty } => {
            let multi = match &ty {
                TypeModel::Path { path, .. } => {
                    let mut found = false;
                    let mut j: usize = 0;
                    while j < path.segments.len()
                        invariant
                            0 <= j <= path.segments@.len(),
                            found <==> exists|k: int|
                                0 <= k < j && path.segments@[k].ident@ == "Vec"@,
                        decreases path.segments@.len() - j,
                    {
                        if str_eq(path.segments[j].ident.as_str(), "Vec") {
                            found = true;
                        }
                        j = j + 1;
                    }
                    found
                },
                _ => return Err(ProgramError::EntrypointArgsMustBeOwned),
            };
            if multi {
                match extract_inner_type(ty) {
                    Ok(t) => Ok(ArgType { multi: true, ty: t }),
                    Err(e) => Err(e),
                }
            } else {
                Ok(ArgType { multi: false, ty })
            }
        },
    }
}

/// The entry point declared by the item at `index`: a function whose
/// arguments are single calls or groups of calls.
pub open spec fn entrypoint_from(index: usize, item_fn: Option<SignatureModel>) -> Result<
    (usize, String, Seq<ArgType>),
    ProgramError,
> {
    match item_fn {
        None => Err(ProgramError::EntrypointExpectedItemFn),
        Some(sig) => match arg_types_of(sig.inputs@) {
            Err(e) => Err(e),
            Ok(ts) => Ok((index, sig.ident, ts)),
        },
    }
}

/// `d` is the entry point that `spec` describes.
pub open spec fn entrypoint_is(d: EntrypointDef, spec: (usize, String, Seq<ArgType>)) -> bool {
    d.index == spec.0 && d.ident == spec.1 && d.arg_types@ == spec.2
}

impl EntrypointDef {
    /// The entry point declared by the item at `index`.
    pub fn try_from(index: usize, item_fn: Option<SignatureModel>) -> (r: Result<EntrypointDef, ProgramError>)
        ensures
            r matches Ok(d) ==> entrypoint_from(index, item_fn) matches Ok(t) && entrypoint_is(d, t),
            r matches Err(e) ==> entrypoint_from(index, item_fn) == Err::<
                (usize, String, Seq<ArgType>),
                ProgramError,
            >(e),
    {
        let ghost orig = item_fn;
        let sig = match item_fn {
            None => return Err(ProgramError::EntrypointExpectedItemFn),
            Some(sig) => sig,
        };
        let ghost all = sig.inputs@;
        let n = sig.inputs.len();
        let ident = sig.ident;
        let mut rest = sig.inputs;
        let mut arg_types: Vec<ArgType> = Vec::new();
        let mut i: usize = 0;
        assert(all.subrange(0, 0) =~= Seq::<FnArgModel>::empty());
        while rest.len() > 0
            invariant
                orig == item_fn,
                orig matches Some(sg) && sg.inputs@ == all && sg.ident == ident,
                all.len() == n,
                0 <= i <= all.len(),
                rest@ == all.subrange(i as int, all.len() as int),
                arg_types_of(all.subrange(0, i as int)) == Ok::<Seq<ArgType>, ProgramError>(
                    arg_types@,
                ),
            decreases rest@.len(),
        {
            let a = rest.remove(0);
            proof {
                assert(a == all[i as int]);
                let p = all.subrange(0, i + 1);
                assert(p.drop_last() =~= all.subrange(0, i as int));
                assert(p.last() == a);
                assert(arg_types_of(p) == (match arg_type_of(a) {
                    Err(e) => Err(e),
                    Ok(t) => Ok(arg_types@.push(t)),
                }));
            }
            match arg_type(a) {
                Err(e) => {
                    proof {
                        lemma_arg_types_err(all, i + 1);
                    }
                    return Err(e);
                },
                Ok(t) => {
                    arg_types.push(t);
                },
            }
            i = i + 1;
            assert(rest@ =~= all.subrange(i as int, all.len() as int));
        }
        assert(all.subrange(0, i as int) =~= all);
        Ok(EntrypointDef { index, ident, arg_types })
    }

    /// For each argument, whether it is a group of calls: the layout the
    /// generated `main` reads the call data by.
    pub fn arg_kinds(&self) -> (r: Vec<bool>)
        ensures
            r@.len() == self.arg_types@.len(),
            forall|k: int| 0 <= k < r@.len() ==> r@[k] == self.arg_types@[k].multi,
    {
        let mut r: Vec<bool> = Vec::new();
        let mut i: usize = 0;
        while i < self.arg_types.len()
            invariant
                0 <= i <= self.arg_types@.len(),
                r@.len() == i,
                forall|k: int| 0 <= k < i ==> r@[k] == self.arg_types@[k].multi,
            decreases self.arg_types@.len() - i,
        {
            r.push(self.arg_types[i].multi);
            i = i + 1;
        }
        r
    }
}

/// What the program has read so far: its calls and its entry point.
pub type DefState = (Seq<CallDef>, Option<(usize, String, Seq<ArgType>)>);

/// One item of the module applied to what the earlier items gave: an item
/// marked `#[xcq::call_def(...)]` adds a call, one marked
/// `#[xcq::entrypoint]` sets the entry point (once), other `xcq`
/// attributes are refused, and unmarked items are left alone.
pub open spec fn def_item(s: DefState, index: usize, item: ProgramItemModel) -> Result<
    DefState,
    ProgramError,
> {
    match item.attrs {
        None => Ok(s),
        Some(attrs) => match first_root_attr(attrs@, "xcq"@) {
            None => Ok(s),
            Some(k) => {
                let attr = attrs@[k];
                let last = attr.path.segments@.last().ident@;
                if last == "call_def"@ {
                    match attr.args {
                        None => Err(ProgramError::ExpectedArguments),
                        Some(args) => match call_def_args(args@) {
                            Err(e) => Err(e),
                            Ok(a) => match call_def_from(index, call_sig(item), a) {
                                Err(e) => Err(e),
                                Ok(c) => Ok((s.0.push(c), s.1)),
                            },
                        },
                    }
                } else if last == "entrypoint"@ {
                    if s.1 is Some {
                        Err(ProgramError::OnlyOneEntrypoint)
                    } else {
                        match entrypoint_from(index, item.item_fn) {
                            Err(e) => Err(e),
                            Ok(d) => Ok((s.0, Some(d))),
                        }
                    }
                } else {
                    Err(ProgramError::InvalidAttribute)
                }
            },
        },
    }
}

/// The items of the module, read in order; the first error ends the
/// reading.
pub open spec fn def_items(items: Seq<ProgramItemModel>) -> Result<DefState, ProgramError>
    decreases items.len(),
{
    if items.len() == 0 {
        Ok((Seq::empty(), None))
    } else {
        match def_items(items.drop_last()) {
            Err(e) => Err(e),
            Ok(s) => def_item(s, (items.len() - 1) as usize, items.last()),
        }
    }
}

/// The definition of the program in a module with the items `content`
/// (`None` where the module has no body).
pub open spec fn def_of(content: Option<Seq<ProgramItemModel>>) -> Result<DefState, ProgramError> {
    match content {
        None => Err(ProgramError::NoContent),
        Some(items) => match def_items(items) {
            Err(e) => Err(e),
            Ok(s) => if s.1 is None {
                Err(ProgramError::NoEntrypoint)
            } else {
                Ok(s)
            },
        },
    }
}

proof fn lemma_def_items_err(items: Seq<ProgramItemModel>, i: int)
    requires
        0 <= i <= items.len(),
        def_items(items.subrange(0, i)) is Err,
    ensures
        def_items(items) == def_items(items.subrange(0, i)),
    decreases items.len() - i,
{
    if i < items.len() {
        let p = items.subrange(0, i + 1);
        assert(p.drop_last() =~= items.subrange(0, i));
        lemma_def_items_err(items, i + 1);
    } else {
        assert(items.subrange(0, i) =~= items);
    }
}

/// `d` is the definition that `s` describes.
pub open spec fn def_is(d: Def, s: DefState) -> bool {
    &&& d.calls@ == s.0
    &&& s.1 matches Some(e) && entrypoint_is(d.entrypoint, e)
}

impl Def {
    /// Reads the definition of a program from the items of its module.
    pub fn try_from(content: Option<Vec<ProgramItemModel>>) -> (r: Result<Def, ProgramError>)
        ensures
            ({
                let spec = def_of(
                    match content {
                        Some(v) => Some(v@),
                        None => None,
                    },
                );
                &&& r matches Ok(d) ==> (spec matches Ok(s) && def_is(d, s))
                &&& r matches Err(e) ==> spec == Err::<DefState, ProgramError>(e)
            }),
            r matches Ok(d) ==> (content matches Some(v) && d.calls@.map_values(|c: CallDef| c.index)
                == call_def_positions(v@)),
    {
        let ghost orig = content;
        let items = match content {
            None => return Err(ProgramError::NoContent),
            Some(items) => items,
        };
        let ghost all = items@;
        let n = items.len();
        let mut rest = items;
        let mut calls: Vec<CallDef> = Vec::new();
        let mut entrypoint: Option<EntrypointDef> = None;
        let mut i: usize = 0;
        assert(all.subrange(0, 0) =~= Seq::<ProgramItemModel>::empty());
        while rest.len() > 0
            invariant
                orig == content,
                orig matches Some(v) && v@ == all,
                all.len() == n,
                0 <= i <= all.len(),
                rest@ == all.subrange(i as int, all.len() as int),
                def_items(all.subrange(0, i as int)) matches Ok(s) && s.0 == calls@ && (match s.1 {
                    None => entrypoint is None,
                    Some(t) => entrypoint matches Some(d) && entrypoint_is(d, t),
                }),
            decreases rest@.len(),
        {
            let item = rest.remove(0);
            let ghost before = def_items(all.subrange(0, i as int))->Ok_0;
            proof {
                assert(item == all[i as int]);
                let p = all.subrange(0, i + 1);
                assert(p.drop_last() =~= all.subrange(0, i as int));
                assert(p.last() == item);
                assert(def_items(p) == def_item(before, i, item));
            }
            let ProgramItemModel { attrs, item_fn, fn_decl } = item;
            if let Some(mut attrs) = attrs {
                if let Some(k) = first_root_attr_position(&attrs, "xcq") {
                    let attr = attrs.remove(k);
                    let seg = attr.path.segments.len() - 1;
                    let is_call_def = str_eq(attr.path.segments[seg].ident.as_str(), "call_def");
                    let is_entrypoint = str_eq(
                        attr.path.segments[seg].ident.as_str(),
                        "entrypoint",
                    );
                    if is_call_def {
                        let args = match attr.args {
                            None => {
                                proof {
                                    lemma_def_items_err(all, i + 1);
                                }
                                return Err(ProgramError::ExpectedArguments);
                            },
                            Some(args) => args,
                        };
                        let parsed = read_call_def_args(args);
                        let (extension_id, call_index, extern_types) = match parsed {
                            Err(e) => {
                                proof {
                                    lemma_def_items_err(all, i + 1);
                                }
                                return Err(e);
                            },
                            Ok(a) => a,
                        };
                        let sig = match item_fn {
                            Some(sig) => Some(sig),
                            None => fn_decl,
                        };
                        match CallDef::try_from(i, sig, extension_id, call_index, extern_types) {
                            Err(e) => {
                                proof {
                                    lemma_def_items_err(all, i + 1);
                                }
                                return Err(e);
                            },
                            Ok(c) => {
                                calls.push(c);
                            },
                        }
                    } else if is_entrypoint {
                        if entrypoint.is_some() {
                            proof {
                                lemma_def_items_err(all, i + 1);
                            }
                            return Err(ProgramError::OnlyOneEntrypoint);
                        }
                        match EntrypointDef::try_from(i, item_fn) {
                            Err(e) => {
                                proof {
                                    lemma_def_items_err(all, i + 1);
                                }
                                return Err(e);
                            },
                            Ok(d) => {
                                entrypoint = Some(d);
                            },
                        }
                    } else {
                        proof {
                            lemma_def_items_err(all, i + 1);
                        }
                        return Err(ProgramError::InvalidAttribute);
                    }
                }
            }
            i = i + 1;
            assert(rest@ =~= all.subrange(i as int, all.len() as int));
        }
        assert(all.subrange(0, i as int) =~= all);
        proof {
            law_every_call_def_gives_a_call(all);
        }
        match entrypoint {
            None => Err(ProgramError::NoEntrypoint),
            Some(entrypoint) => Ok(Def { calls, entrypoint }),
        }
    }
}

/// The encoded type that a call's declared return type promises, which the
/// generated program compares with what the host reports: the unsigned
/// integers and `Vec<u8>` have their encodings; any other path type is
/// checked against the single byte `0`; a return type that is no path is
/// refused.
pub open spec fn expected_return_ty(output: Option<TypeModel>) -> Result<Seq<u8>, ProgramError> {
    match output {
        None => Err(ProgramError::ExpectedReturnPath),
        Some(TypeModel::Path { path, .. }) => if path.segments.len() == 0 {
            Err(ProgramError::ExpectedReturnPath)
        } else {
            let last = path.segments@.last();
            let id = last.ident@;
            if id == "u8"@ {
                Ok(type_encoding(TypeView::Primitive(PrimitiveType::U8)))
            } else if id == "u16"@ {
                Ok(type_encoding(TypeView::Primitive(PrimitiveType::U16)))
            } else if id == "u32"@ {
                Ok(type_encoding(TypeView::Primitive(PrimitiveType::U32)))
            } else if id == "u64"@ {
                Ok(type_encoding(TypeView::Primitive(PrimitiveType::U64)))
            } else if id == "u128"@ {
                Ok(type_encoding(TypeView::Primitive(PrimitiveType::U128)))
            } else if id == "Vec"@ {
                match last.args {
                    ArgsModel::AngleBracketed(a) => if a.len() == 1 {
                        match a@[0] {
                            GenericArgModel::Type(TypeModel::Path { path: p, .. }) => if path_is_ident(
                                p,
                                "u8"@,
                            ) {
                                Ok(
                                    type_encoding(
                                        TypeView::Sequence(
                                            Box::new(TypeView::Primitive(PrimitiveType::U8)),
                                        ),
                                    ),
                                )
                            } else {
                                Ok(seq![0u8])
                            },
                            _ => Ok(seq![0u8]),
                        }
                    } else {
                        Ok(seq![0u8])
                    },
                    _ => Ok(seq![0u8]),
                }
            } else {
                Ok(seq![0u8])
            }
        },
        Some(_) => Err(ProgramError::ExpectedReturnPath),
    }
}

fn primitive_encoding(p: PrimitiveType) -> (r: Vec<u8>)
    ensures
        r@ == type_encoding(TypeView::Primitive(p)),
{
    XcqType::Primitive(p).encode()
}

/// The single byte `0`.
fn zero_byte() -> (r: Vec<u8>)
    ensures
        r@ == seq![0u8],
{
    let mut v: Vec<u8> = Vec::new();
    v.push(0u8);
    assert(v@ =~= seq![0u8]);
    v
}

/// The encoded type that the call's declared return type promises.
pub fn expected_return_ty_bytes(output: &Option<TypeModel>) -> (r: Result<Vec<u8>, ProgramError>)
    ensures
        r matches Ok(b) ==> expected_return_ty(*output) == Ok::<Seq<u8>, ProgramError>(b@),
        r matches Err(e) ==> expected_return_ty(*output) == Err::<Seq<u8>, ProgramError>(e),
{
    let path = match output {
        Some(TypeModel::Path { path, .. }) => path,
        _ => return Err(ProgramError::ExpectedReturnPath),
    };
    if path.segments.len() == 0 {
        return Err(ProgramError::ExpectedReturnPath);
    }
    let last = &path.segments[path.segments.len() - 1];
    let id = last.ident.as_str();
    if str_eq(id, "u8") {
        Ok(primitive_encoding(PrimitiveType::U8))
    } else if str_eq(id, "u16") {
        Ok(primitive_encoding(PrimitiveType::U16))
    } else if str_eq(id, "u32") {
        Ok(primitive_encoding(PrimitiveType::U32))
    } else if str_eq(id, "u64") {
        Ok(primitive_encoding(PrimitiveType::U64))
    } else if str_eq(id, "u128") {
        Ok(primitive_encoding(PrimitiveType::U128))
    } else if str_eq(id, "Vec") {
        match &last.args {
            ArgsModel::AngleBracketed(a) => {
                if a.len() == 1 {
                    match &a[0] {
                        GenericArgModel::Type(TypeModel::Path { path: p, .. }) => {
                            if is_ident(p, "u8") {
                                let u8_ty = XcqType::Primitive(PrimitiveType::U8);
                                assert(u8_ty@ == TypeView::Primitive(PrimitiveType::U8));
                                let t = XcqType::Sequence(Box::new(u8_ty));
                                assert(t@ == TypeView::Sequence(Box::new(TypeView::Primitive(PrimitiveType::U8))));
                                assert(type_wf(TypeView::Primitive(PrimitiveType::U8)));
                                assert(type_wf(t@));
                                Ok(t.encode())
                            } else {
                                Ok(zero_byte())
                            }
                        },
                        _ => Ok(zero_byte()),
                    }
                } else {
                    Ok(zero_byte())
                }
            },
            _ => Ok(zero_byte()),
        }
    } else {
        Ok(zero_byte())
    }
}

/// The return type of a declared call, which its call struct decodes the
/// host's answer into; a call without one is refused.
pub fn call_return_type(output: &Option<TypeModel>) -> (r: Result<&TypeModel, ProgramError>)
    ensures
        output matches Some(t) ==> r matches Ok(u) && *u == t,
        output is None ==> r == Err::<&TypeModel, ProgramError>(ProgramError::ExpectedReturnType),
{
    match output {
        Some(t) => Ok(t),
        None => Err(ProgramError::ExpectedReturnType),
    }
}

/// What the generated program checks before it makes any call: the type
/// that the host reports for the call equals the one it expects.
pub fn assert_return_ty(expected_ty_bytes: &[u8], ty_bytes: &[u8]) -> (r: bool)
    ensures
        r == (expected_ty_bytes@ == ty_bytes@),
{
    if expected_ty_bytes.len() != ty_bytes.len() {
        return false;
    }
    let mut i: usize = 0;
    while i < ty_bytes.len()
        invariant
            expected_ty_bytes@.len() == ty_bytes@.len(),
            0 <= i <= ty_bytes@.len(),
            forall|j: int| 0 <= j < i ==> expected_ty_bytes@[j] == ty_bytes@[j],
        decreases ty_bytes@.len() - i,
    {
        if expected_ty_bytes[i] != ty_bytes[i] {
            return false;
        }
        i = i + 1;
    }
    assert(expected_ty_bytes@ =~= ty_bytes@);
    true
}

/// The segment is `Vec<u8>`.
pub open spec fn is_vec_u8(seg: SegmentModel) -> bool {
    &&& seg.ident@ == "Vec"@
    &&& match seg.args {
        ArgsModel::AngleBracketed(a) => a.len() == 1 && match a@[0] {
            GenericArgModel::Type(TypeModel::Path { path: p, .. }) => path_is_ident(p, "u8"@),
            _ => false,
        },
        _ => false,
    }
}

/// Law: the return-type check that a query program makes for a call
/// declared to return `u8`, `u16`, `u32`, `u64`, `u128` or `Vec<u8>`
/// expects exactly the encoded type that the host reports (through
/// `return_ty`) for an extension method whose output is that type.
pub proof fn law_return_ty_check_agrees(path: PathModel)
    requires
        path.segments.len() > 0,
    ensures
        ({
            let last = path.segments@.last();
            let e = expected_return_ty(Some(TypeModel::Path { qself: None, path }));
            &&& last.ident@ == "u8"@ ==> e == Ok::<Seq<u8>, ProgramError>(type_encoding(<u8 as XcqTypeInfo>::spec_type_info()))
            &&& last.ident@ == "u16"@ ==> e == Ok::<Seq<u8>, ProgramError>(type_encoding(<u16 as XcqTypeInfo>::spec_type_info()))
            &&& last.ident@ == "u32"@ ==> e == Ok::<Seq<u8>, ProgramError>(type_encoding(<u32 as XcqTypeInfo>::spec_type_info()))
            &&& last.ident@ == "u64"@ ==> e == Ok::<Seq<u8>, ProgramError>(type_encoding(<u64 as XcqTypeInfo>::spec_type_info()))
            &&& last.ident@ == "u128"@ ==> e == Ok::<Seq<u8>, ProgramError>(type_encoding(<u128 as XcqTypeInfo>::spec_type_info()))
            &&& is_vec_u8(last) ==> e == Ok::<Seq<u8>, ProgramError>(type_encoding(<Vec<u8> as XcqTypeInfo>::spec_type_info()))
        }),
{
    reveal_strlit("u8");
    reveal_strlit("u16");
    reveal_strlit("u32");
    reveal_strlit("u64");
    reveal_strlit("u128");
    reveal_strlit("Vec");
    assert("u8"@.len() == 2);
    assert("u16"@.len() == 3 && "u16"@[1] == '1');
    assert("u32"@.len() == 3 && "u32"@[1] == '3');
    assert("u64"@.len() == 3 && "u64"@[1] == '6');
    assert("u128"@.len() == 4);
    assert("Vec"@.len() == 3 && "Vec"@[0] == 'V' && "u8"@[0] == 'u');
}

/// The item is marked `#[xcq::call_def(..)]`: its first attribute whose
/// path starts with `xcq` ends in `call_def`.
pub open spec fn is_call_def_item(item: ProgramItemModel) -> bool {
    &&& item.attrs matches Some(attrs)
    &&& first_root_attr(attrs@, "xcq"@) matches Some(k)
    &&& attrs@[k].path.segments@.last().ident@ == "call_def"@
}

/// The positions of the items marked `#[xcq::call_def(..)]`, in order.
pub open spec fn call_def_positions(items: Seq<ProgramItemModel>) -> Seq<usize>
    decreases items.len(),
{
    if items.len() == 0 {
        Seq::empty()
    } else {
        let ps = call_def_positions(items.drop_last());
        if is_call_def_item(items.last()) {
            ps.push((items.len() - 1) as usize)
        } else {
            ps
        }
    }
}

/// Law: reading a module keeps a call for every item marked
/// `#[xcq::call_def(..)]`, in the order of the items: the calls' positions
/// are exactly the positions of those items, and each call carries the
/// name of the function at its position.
pub proof fn law_every_call_def_gives_a_call(items: Seq<ProgramItemModel>)
    requires
        def_items(items) is Ok,
        items.len() <= usize::MAX,
    ensures
        def_items(items)->Ok_0.0.map_values(|c: CallDef| c.index) == call_def_positions(items),
        forall|j: int|
            0 <= j < def_items(items)->Ok_0.0.len() ==> (call_sig(
                items[#[trigger] def_items(items)->Ok_0.0[j].index as int],
            ) matches Some(sig) && sig.ident == def_items(items)->Ok_0.0[j].ident),
    decreases items.len(),
{
    if items.len() > 0 {
        let init = items.drop_last();
        law_every_call_def_gives_a_call(init);
        let s = def_items(init)->Ok_0;
        let t = def_items(items)->Ok_0;
        let last = items.last();
        assert(def_items(items) == def_item(s, (items.len() - 1) as usize, last));
        if is_call_def_item(last) {
            assert(t.0 == s.0.push(t.0.last()));
            assert(t.0.map_values(|c: CallDef| c.index) =~= s.0.map_values(|c: CallDef| c.index).push(
                (items.len() - 1) as usize,
            ));
        } else {
            assert(t.0 == s.0);
        }
        assert forall|j: int| 0 <= j < t.0.len() implies (call_sig(
            items[#[trigger] t.0[j].index as int],
        ) matches Some(sig) && sig.ident == t.0[j].ident) by {
            if j < s.0.len() {
                assert(t.0[j] == s.0[j]);
                assert(s.0.map_values(|c: CallDef| c.index)[j] == s.0[j].index);
                lemma_call_def_positions_bound(init, j);
                assert(items[s.0[j].index as int] == init[s.0[j].index as int]);
            } else {
                assert(is_call_def_item(last));
                let attrs = last.attrs->Some_0;
                let k = first_root_attr(attrs@, "xcq"@)->Some_0;
                let args = attrs@[k].args->Some_0;
                let a = call_def_args(args@)->Ok_0;
                assert(t.0[j] == call_def_from((items.len() - 1) as usize, call_sig(last), a)->Ok_0);
                assert(t.0[j].index == (items.len() - 1) as usize);
                assert(items[items.len() - 1] == last);
                assert(t.0[j].index as int == items.len() - 1);
            }
        }
    }
}

proof fn lemma_call_def_positions_bound(items: Seq<ProgramItemModel>, j: int)
    requires
        0 <= j < call_def_positions(items).len(),
    ensures
        call_def_positions(items)[j] < items.len(),
    decreases items.len(),
{
    if items.len() > 0 {
        let ps = call_def_positions(items.drop_last());
        if j < ps.len() {
            lemma_call_def_positions_bound(items.drop_last(), j);
        }
    }
}

/// Law: the definition read from a module holds one call per item marked
/// `#[xcq::call_def(..)]`, at that item's position, in order.
pub proof fn law_def_calls(items: Seq<ProgramItemModel>)
    requires
        def_of(Some(items)) is Ok,
        items.len() <= usize::MAX,
    ensures
        def_of(Some(items))->Ok_0.0.map_values(|c: CallDef| c.index) == call_def_positions(items),
        def_of(Some(items))->Ok_0.0.len() == call_def_positions(items).len(),
{
    law_every_call_def_gives_a_call(items);
}

proof fn lemma_arg_types_split(a: Seq<FnArgModel>, b: Seq<FnArgModel>)
    ensures
        arg_types_of(a) is Ok && arg_types_of(b) is Ok ==> arg_types_of(a + b) == Ok::<Seq<ArgType>, ProgramError>(
            arg_types_of(a)->Ok_0 + arg_types_of(b)->Ok_0,
        ),
        arg_types_of(a) is Err ==> arg_types_of(a + b) == arg_types_of(a),
    decreases b.len(),
{
    if b.len() == 0 {
        assert(a + b =~= a);
        if let Ok(x) = arg_types_of(a) {
            assert(x + Seq::<ArgType>::empty() =~= x);
        }
    } else {
        lemma_arg_types_split(a, b.drop_last());
        assert((a + b).drop_last() =~= a + b.drop_last());
        assert((a + b).last() == b.last());
        if let (Ok(x), Ok(y)) = (arg_types_of(a), arg_types_of(b.drop_last())) {
            if let Ok(t) = arg_type_of(b.last()) {
                assert((x + y).push(t) =~= x + y.push(t));
            }
        }
    }
}

/// Law: the entry point's arguments are read in their order: where both
/// halves are read, the arguments of `a + b` are those of `a` followed by
/// those of `b`; an error in `a` is the error of the whole list.
pub proof fn law_entrypoint_args_in_order(a: Seq<FnArgModel>, b: Seq<FnArgModel>)
    ensures
        arg_types_of(a) is Ok && arg_types_of(b) is Ok ==> arg_types_of(a + b) == Ok::<Seq<ArgType>, ProgramError>(
            arg_types_of(a)->Ok_0 + arg_types_of(b)->Ok_0,
        ),
        arg_types_of(a) is Err ==> arg_types_of(a + b) == arg_types_of(a),
{
    lemma_arg_types_split(a, b);
}

} // verus!
