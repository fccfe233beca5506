//! Names that the code generators derive: the identifier of an extension,
//! the modules that hold what is generated for a trait, the call structs of
//! a query program, and the path by which generated code reaches a crate.
use vstd::prelude::*;
use crate::syntax::{ArgsModel, PathModel, SegmentModel, TraitItemModel};
use inflector::Inflector;
use std::hash::Hasher;

verus! {

/// The 64-bit xxHash, with seed 0, of `data`.
pub uninterp spec fn xxhash64(data: Seq<u8>) -> u64;

/// `s` in snake case, as Inflector writes it.
pub uninterp spec fn snake_case(s: Seq<char>) -> Seq<char>;

/// `s` in Pascal case, as Inflector writes it.
pub uninterp spec fn pascal_case(s: Seq<char>) -> Seq<char>;

/// Calls twox-hash: an `XxHash64` with seed 0 that is fed `data` and then
/// finished. Claimed: the result is `xxhash64(data)`, a function of the
/// bytes fed alone (the hasher buffers, so how the bytes are split among
/// writes does not change the result).
#[verifier::external_body]
fn xxhash64_of(data: &[u8]) -> (r: u64)
    ensures
        r == xxhash64(data@),
{
    let mut hasher = twox_hash::XxHash64::default();
    hasher.write(data);
    hasher.finish()
}

/// Calls Inflector's `to_snake_case`. Claimed: the result is
/// `snake_case(s)`, a function of `s` alone.
#[verifier::external_body]
fn to_snake_case(s: &str) -> (r: String)
    ensures
        r@ == snake_case(s@),
{
    s.to_snake_case()
}

/// Calls Inflector's `to_pascal_case`. Claimed: the result is
/// `pascal_case(s)`, a function of `s` alone.
#[verifier::external_body]
fn to_pascal_case(s: &str) -> (r: String)
    ensures
        r@ == pascal_case(s@),
{
    s.to_pascal_case()
}

/// Calls std's `str::replace`, replacing each `-` by `_`. Claimed, as its
/// documentation says: every match of the pattern is replaced, nothing else
/// changes.
#[verifier::external_body]
pub(crate) fn replace_dashes(s: &str) -> (r: String)
    ensures
        r@ == s@.map_values(|c: char| if c == '-' { '_' } else { c }),
{
    s.replace('-', "_")
}

/// What `Hash` feeds a hasher for a string: its bytes, then `0xff`.
pub open spec fn str_hash_input(s: Seq<u8>) -> Seq<u8> {
    s.push(0xff)
}

/// The bytes of `xcq-ext$`, which start every extension's hash input.
pub open spec fn extension_marker() -> Seq<u8> {
    seq![120u8, 99u8, 113u8, 45u8, 101u8, 120u8, 116u8, 36u8]
}

/// The bytes of `@`, which come before each method's name.
pub open spec fn method_marker() -> Seq<u8> {
    seq![64u8]
}

/// The hash input that the methods among `items` contribute, in order.
pub open spec fn methods_hash_input(items: Seq<TraitItemModel>) -> Seq<u8>
    decreases items.len(),
{
    if items.len() == 0 {
        Seq::empty()
    } else {
        methods_hash_input(items.drop_last()) + match items.last() {
            TraitItemModel::Fn(sig) => str_hash_input(method_marker()) + str_hash_input(
                vstd::utf8::encode_utf8(sig.ident@),
            ),
            _ => Seq::empty(),
        }
    }
}

/// Everything that is hashed into the identifier of the extension declared
/// by the trait `trait_ident` with the items `items`: the marker, the
/// trait's name, and the name of each method, in order. Associated types
/// and the methods' signatures do not enter it.
pub open spec fn extension_hash_input(trait_ident: Seq<char>, items: Seq<TraitItemModel>) -> Seq<
    u8,
> {
    str_hash_input(extension_marker()) + str_hash_input(vstd::utf8::encode_utf8(trait_ident))
        + methods_hash_input(items)
}

/// Appends what `Hash` feeds a hasher for the string with the bytes `b`.
fn push_str_hash_input(out: &mut Vec<u8>, b: &[u8])
    ensures
        final(out)@ == old(out)@ + str_hash_input(b@),
{
    let mut i: usize = 0;
    while i < b.len()
        invariant
            0 <= i <= b@.len(),
            out@ == old(out)@ + b@.subrange(0, i as int),
        decreases b@.len() - i,
    {
        out.push(b[i]);
        i = i + 1;
        assert(out@ =~= old(out)@ + b@.subrange(0, i as int));
    }
    out.push(0xff);
    assert(out@ =~= old(out)@ + str_hash_input(b@));
}

/// The bytes hashed into the identifier of an extension.
pub fn extension_hash_bytes(trait_ident: &String, trait_items: &[TraitItemModel]) -> (r: Vec<u8>)
    ensures
        r@ == extension_hash_input(trait_ident@, trait_items@),
{
    let mut out: Vec<u8> = Vec::new();
    let marker: [u8; 8] = [120u8, 99u8, 113u8, 45u8, 101u8, 120u8, 116u8, 36u8];
    assert(marker@ =~= extension_marker());
    push_str_hash_input(&mut out, &marker);
    push_str_hash_input(&mut out, trait_ident.as_str().as_bytes());
    let ghost head = out@;
    assert(head =~= str_hash_input(extension_marker()) + str_hash_input(
        vstd::utf8::encode_utf8(trait_ident@),
    ));
    let at: [u8; 1] = [64u8];
    assert(at@ =~= method_marker());
    let mut i: usize = 0;
    while i < trait_items.len()
        invariant
            0 <= i <= trait_items@.len(),
            at@ == method_marker(),
            out@ == head + methods_hash_input(trait_items@.subrange(0, i as int)),
        decreases trait_items@.len() - i,
    {
        match &trait_items[i] {
            TraitItemModel::Fn(sig) => {
                push_str_hash_input(&mut out, &at);
                push_str_hash_input(&mut out, sig.ident.as_str().as_bytes());
            },
            _ => {},
        }
        proof {
            let s = trait_items@.subrange(0, i + 1);
            assert(s.drop_last() =~= trait_items@.subrange(0, i as int));
            assert(s.last() == trait_items@[i as int]);
            assert(out@ =~= head + methods_hash_input(s));
        }
        i = i + 1;
    }
    assert(trait_items@.subrange(0, trait_items@.len() as int) =~= trait_items@);
    out
}

/// The identifier of the extension declared by a trait: the xxHash of its
/// name and of its methods' names.
pub fn calculate_hash(trait_ident: &String, trait_items: &[TraitItemModel]) -> (r: u64)
    ensures
        r == xxhash64(extension_hash_input(trait_ident@, trait_items@)),
{
    let bytes = extension_hash_bytes(trait_ident, trait_items);
    xxhash64_of(bytes.as_slice())
}

/// The name of the module that holds what is generated for an extension
/// trait: `decl_extension_for_` and the trait's name in snake case.
pub fn generate_mod_name_for_trait(trait_: &String) -> (r: String)
    ensures
        r@ == "decl_extension_for_"@ + snake_case(trait_@),
{
    let snake = to_snake_case(trait_.as_str());
    let prefix = String::from_str("decl_extension_for_");
    prefix.concat(snake.as_str())
}

/// The name of the module that holds what is generated for a runtime API
/// trait: `runtime_decl_for_` and the trait's name in snake case.
pub fn generate_runtime_mod_name_for_trait(trait_: &String) -> (r: String)
    ensures
        r@ == "runtime_decl_for_"@ + snake_case(trait_@),
{
    let snake = to_snake_case(trait_.as_str());
    let prefix = String::from_str("runtime_decl_for_");
    prefix.concat(snake.as_str())
}

/// The name of the struct through which a query program makes the call
/// declared by the function `fn_ident`: its name in Pascal case and `Call`.
pub fn call_struct_name(fn_ident: &String) -> (r: String)
    ensures
        r@ == pascal_case(fn_ident@) + "Call"@,
{
    let pascal = to_pascal_case(fn_ident.as_str());
    pascal.concat("Call")
}

/// Where a crate was found among the dependencies of the crate being built.
pub enum FoundCrateModel {
    /// It is the crate being built.
    Itself,
    /// It is a dependency, under this name.
    Name(String),
}

/// How generated code reaches a crate.
pub enum CrateAccess {
    /// Through `crate`.
    Crate,
    /// Through this identifier.
    Ident(String),
}

/// How code generated for the extensions reaches the crate `found`: `crate`
/// inside it, else its name with each `-` written `_`.
pub fn generate_crate_access(found: &FoundCrateModel) -> (r: CrateAccess)
    ensures
        found is Itself ==> r is Crate,
        found matches FoundCrateModel::Name(name) ==> r matches CrateAccess::Ident(i) && i@
            == name@.map_values(|c: char| if c == '-' { '_' } else { c }),
{
    match found {
        FoundCrateModel::Itself => CrateAccess::Crate,
        FoundCrateModel::Name(name) => CrateAccess::Ident(replace_dashes(name.as_str())),
    }
}


/// `p` is the path made of the one identifier `ident`.
pub open spec fn is_ident_path(p: PathModel, ident: Seq<char>) -> bool {
    &&& !p.leading_colon
    &&& p.segments@.len() == 1
    &&& p.segments@[0].ident@ == ident
    &&& p.segments@[0].args is Absent
}

/// The path by which code generated for a runtime API reaches the crate
/// `def_crate`, given what the lookups found, tried in this order: the path
/// under `frame`, where frame is in scope; the path in the SDK, where there
/// is one; else, where Cargo.toml names the crate (`found`), the crate
/// itself by its name with each `-` written `_`, or the name it has as a
/// dependency. `None` where no lookup found it.
pub fn generate_access_from_frame_or_crate(
    frame_path: Option<PathModel>,
    sdk_path: Option<PathModel>,
    def_crate: &str,
    found: Option<FoundCrateModel>,
) -> (r: Option<PathModel>)
    ensures
        frame_path is Some ==> r == frame_path,
        frame_path is None && sdk_path is Some ==> r == sdk_path,
        frame_path is None && sdk_path is None ==> match found {
            None => r is None,
            Some(FoundCrateModel::Itself) => r matches Some(p) && is_ident_path(
                p,
                def_crate@.map_values(|c: char| if c == '-' { '_' } else { c }),
            ),
            Some(FoundCrateModel::Name(name)) => r matches Some(p) && is_ident_path(p, name@),
        },
{
    if frame_path.is_some() {
        return frame_path;
    }
    if sdk_path.is_some() {
        return sdk_path;
    }
    let ident = match found {
        None => return None,
        Some(FoundCrateModel::Itself) => replace_dashes(def_crate),
        Some(FoundCrateModel::Name(name)) => name,
    };
    let mut segments: Vec<SegmentModel> = Vec::new();
    segments.push(SegmentModel { ident, args: ArgsModel::Absent });
    Some(PathModel { leading_colon: false, segments })
}

/// The names of the methods among the items, in order.
pub open spec fn method_names_in(items: Seq<TraitItemModel>) -> Seq<Seq<char>>
    decreases items.len(),
{
    if items.len() == 0 {
        Seq::empty()
    } else {
        let ns = method_names_in(items.drop_last());
        match items.last() {
            TraitItemModel::Fn(sig) => ns.push(sig.ident@),
            _ => ns,
        }
    }
}

/// The hash input of a list of method names.
pub open spec fn names_hash_input(names: Seq<Seq<char>>) -> Seq<u8>
    decreases names.len(),
{
    if names.len() == 0 {
        Seq::empty()
    } else {
        names_hash_input(names.drop_last()) + str_hash_input(method_marker()) + str_hash_input(
            vstd::utf8::encode_utf8(names.last()),
        )
    }
}

proof fn lemma_methods_hash_input(items: Seq<TraitItemModel>)
    ensures
        methods_hash_input(items) == names_hash_input(method_names_in(items)),
    decreases items.len(),
{
    if items.len() > 0 {
        lemma_methods_hash_input(items.drop_last());
        let ns = method_names_in(items.drop_last());
        match items.last() {
            TraitItemModel::Fn(sig) => {
                assert(ns.push(sig.ident@).drop_last() =~= ns);
                assert(methods_hash_input(items) =~= names_hash_input(method_names_in(items)));
            },
            _ => {
                assert(methods_hash_input(items) =~= names_hash_input(method_names_in(items)));
            },
        }
    }
}

/// Law: the identifier of an extension depends on the trait's name and on
/// its methods' names, in order, alone: two traits of the same name whose
/// methods have the same names get the same identifier, whatever their
/// associated types and signatures.
pub proof fn law_extension_id_by_names(
    trait_ident: Seq<char>,
    items1: Seq<TraitItemModel>,
    items2: Seq<TraitItemModel>,
)
    requires
        method_names_in(items1) == method_names_in(items2),
    ensures
        xxhash64(extension_hash_input(trait_ident, items1)) == xxhash64(
            extension_hash_input(trait_ident, items2),
        ),
{
    lemma_methods_hash_input(items1);
    lemma_methods_hash_input(items2);
    assert(extension_hash_input(trait_ident, items1) == extension_hash_input(trait_ident, items2));
}

} // verus!
