//! Metadata of extensions: their methods, the methods' parameters and
//! results. The intermediate form names types by their run-time handles;
//! the final form holds the descriptions themselves.
use vstd::prelude::*;
use crate::type_info::MetaType;
use crate::codec::{compact, encoded_bytes, push_compact_len, push_encoded_bytes};
use crate::types::{type_encoding, type_wf, TypeView, XcqType};
use vstd::string::StringSliceAdditionalSpecFns;

verus! {

/// The mathematical value of a parameter's metadata.
pub struct ParamView {
    pub name: Seq<char>,
    pub ty: TypeView,
}

/// The mathematical value of a method's metadata.
pub struct MethodView {
    pub name: Seq<char>,
    pub inputs: Seq<ParamView>,
    pub output: TypeView,
}

/// The mathematical value of an extension's metadata.
pub struct ExtensionView {
    pub name: Seq<char>,
    pub methods: Seq<MethodView>,
}

/// Metadata of a method parameter, naming its type by a handle.
#[derive(Clone, PartialEq, Eq, Debug)]
pub struct MethodParamMetadataIR {
    /// Parameter name.
    pub name: &'static str,
    /// Parameter type.
    pub ty: MetaType,
}

/// Metadata of a method, naming types by handles.
#[derive(Clone, PartialEq, Eq, Debug)]
pub struct MethodMetadataIR {
    /// Method name.
    pub name: &'static str,
    /// Method parameters.
    pub inputs: Vec<MethodParamMetadataIR>,
    /// Method output.
    pub output: MetaType,
}

/// Metadata of an extension, naming types by handles.
#[derive(Clone, PartialEq, Eq, Debug)]
pub struct ExtensionMetadataIR {
    pub name: &'static str,
    pub methods: Vec<MethodMetadataIR>,
}

/// Metadata of extensions, naming types by handles.
#[derive(Clone, PartialEq, Eq, Debug)]
pub struct MetadataIR {
    pub extensions: Vec<ExtensionMetadataIR>,
}

/// A set of extensions that can describe itself.
pub trait RuntimeMetadata {
    fn runtime_metadata() -> MetadataIR;
}

/// Metadata of a method parameter.
#[derive(Clone, PartialEq, Eq, Debug)]
pub struct MethodParamMetadata {
    /// Parameter name.
    pub name: &'static str,
    /// Parameter type.
    pub ty: XcqType,
}

/// Metadata of a method.
#[derive(Clone, PartialEq, Eq, Debug)]
pub struct MethodMetadata {
    /// Method name.
    pub name: &'static str,
    /// Method parameters.
    pub inputs: Vec<MethodParamMetadata>,
    /// Method output.
    pub output: XcqType,
}

/// Metadata of an extension.
#[derive(Clone, PartialEq, Eq, Debug)]
pub struct ExtensionMetadata {
    pub name: &'static str,
    pub methods: Vec<MethodMetadata>,
}

/// Metadata of extensions.
#[derive(Clone, PartialEq, Eq, Debug)]
pub struct Metadata {
    pub extensions: Vec<ExtensionMetadata>,
}

impl View for MethodParamMetadataIR {
    type V = ParamView;

    open spec fn view(&self) -> ParamView {
        ParamView { name: self.name@, ty: self.ty.spec_info() }
    }
}

impl View for MethodMetadataIR {
    type V = MethodView;

    open spec fn view(&self) -> MethodView {
        MethodView {
            name: self.name@,
            inputs: self.inputs@.map_values(|p: MethodParamMetadataIR| p@),
            output: self.output.spec_info(),
        }
    }
}

impl View for ExtensionMetadataIR {
    type V = ExtensionView;

    open spec fn view(&self) -> ExtensionView {
        ExtensionView {
            name: self.name@,
            methods: self.methods@.map_values(|m: MethodMetadataIR| m@),
        }
    }
}

impl View for MetadataIR {
    type V = Seq<ExtensionView>;

    open spec fn view(&self) -> Seq<ExtensionView> {
        self.extensions@.map_values(|e: ExtensionMetadataIR| e@)
    }
}

impl View for MethodParamMetadata {
    type V = ParamView;

    open spec fn view(&self) -> ParamView {
        ParamView { name: self.name@, ty: self.ty@ }
    }
}

impl View for MethodMetadata {
    type V = MethodView;

    open spec fn view(&self) -> MethodView {
        MethodView {
            name: self.name@,
            inputs: self.inputs@.map_values(|p: MethodParamMetadata| p@),
            output: self.output@,
        }
    }
}

impl View for ExtensionMetadata {
    type V = ExtensionView;

    open spec fn view(&self) -> ExtensionView {
        ExtensionView { name: self.name@, methods: self.methods@.map_values(|m: MethodMetadata| m@) }
    }
}

impl View for Metadata {
    type V = Seq<ExtensionView>;

    open spec fn view(&self) -> Seq<ExtensionView> {
        self.extensions@.map_values(|e: ExtensionMetadata| e@)
    }
}

impl MethodParamMetadata {
    /// The parameter's metadata with its type described in place of its handle.
    pub fn from_ir(ir: &MethodParamMetadataIR) -> (r: MethodParamMetadata)
        ensures
            r@ == ir@,
    {
        MethodParamMetadata { name: ir.name, ty: ir.ty.type_info() }
    }
}

impl MethodMetadata {
    /// The method's metadata with its types described in place of their handles.
    pub fn from_ir(ir: &MethodMetadataIR) -> (r: MethodMetadata)
        ensures
            r@ == ir@,
    {
        let mut inputs: Vec<MethodParamMetadata> = Vec::new();
        for i in 0..ir.inputs.len()
            invariant
                inputs@.len() == i,
                inputs@.map_values(|p: MethodParamMetadata| p@) == ir.inputs@.take(i as int).map_values(
                    |p: MethodParamMetadataIR| p@,
                ),
        {
            let p = MethodParamMetadata::from_ir(&ir.inputs[i]);
            let ghost prev = inputs@.map_values(|p: MethodParamMetadata| p@);
            inputs.push(p);
            assert(inputs@.map_values(|p: MethodParamMetadata| p@) =~= prev.push(ir.inputs@[i as int]@));
            assert(inputs@.map_values(|p: MethodParamMetadata| p@) =~= ir.inputs@.take(i + 1).map_values(
                |p: MethodParamMetadataIR| p@,
            ));
        }
        assert(ir.inputs@.take(ir.inputs@.len() as int) =~= ir.inputs@);
        MethodMetadata { name: ir.name, inputs, output: ir.output.type_info() }
    }
}

impl ExtensionMetadata {
    /// The extension's metadata with its types described in place of their handles.
    pub fn from_ir(ir: &ExtensionMetadataIR) -> (r: ExtensionMetadata)
        ensures
            r@ == ir@,
    {
        let mut methods: Vec<MethodMetadata> = Vec::new();
        for i in 0..ir.methods.len()
            invariant
                methods@.len() == i,
                methods@.map_values(|m: MethodMetadata| m@) == ir.methods@.take(i as int).map_values(
                    |m: MethodMetadataIR| m@,
                ),
        {
            let m = MethodMetadata::from_ir(&ir.methods[i]);
            let ghost prev = methods@.map_values(|m: MethodMetadata| m@);
            methods.push(m);
            assert(methods@.map_values(|m: MethodMetadata| m@) =~= prev.push(ir.methods@[i as int]@));
            assert(methods@.map_values(|m: MethodMetadata| m@) =~= ir.methods@.take(i + 1).map_values(
                |m: MethodMetadataIR| m@,
            ));
        }
        assert(ir.methods@.take(ir.methods@.len() as int) =~= ir.methods@);
        ExtensionMetadata { name: ir.name, methods }
    }
}

impl Metadata {
    /// The metadata with all types described in place of their handles.
    pub fn from_ir(ir: &MetadataIR) -> (r: Metadata)
        ensures
            r@ == ir@,
    {
        let mut extensions: Vec<ExtensionMetadata> = Vec::new();
        for i in 0..ir.extensions.len()
            invariant
                extensions@.len() == i,
                extensions@.map_values(|e: ExtensionMetadata| e@) == ir.extensions@.take(
                    i as int,
                ).map_values(|e: ExtensionMetadataIR| e@),
        {
            let e = ExtensionMetadata::from_ir(&ir.extensions[i]);
            let ghost prev = extensions@.map_values(|e: ExtensionMetadata| e@);
            extensions.push(e);
            assert(extensions@.map_values(|e: ExtensionMetadata| e@) =~= prev.push(ir.extensions@[i as int]@));
            assert(extensions@.map_values(|e: ExtensionMetadata| e@) =~= ir.extensions@.take(
                i + 1,
            ).map_values(|e: ExtensionMetadataIR| e@));
        }
        assert(ir.extensions@.take(ir.extensions@.len() as int) =~= ir.extensions@);
        Metadata { extensions }
    }
}

impl From<MethodParamMetadataIR> for MethodParamMetadata {
    fn from(ir: MethodParamMetadataIR) -> (r: MethodParamMetadata) {
        MethodParamMetadata::from_ir(&ir)
    }
}

impl vstd::std_specs::convert::FromSpecImpl<MethodParamMetadataIR> for MethodParamMetadata {
    open spec fn obeys_from_spec() -> bool {
        false
    }

    open spec fn from_spec(ir: MethodParamMetadataIR) -> MethodParamMetadata {
        choose|r: MethodParamMetadata| r@ == ir@
    }
}

impl From<MethodMetadataIR> for MethodMetadata {
    fn from(ir: MethodMetadataIR) -> (r: MethodMetadata) {
        MethodMetadata::from_ir(&ir)
    }
}

impl vstd::std_specs::convert::FromSpecImpl<MethodMetadataIR> for MethodMetadata {
    open spec fn obeys_from_spec() -> bool {
        false
    }

    open spec fn from_spec(ir: MethodMetadataIR) -> MethodMetadata {
        choose|r: MethodMetadata| r@ == ir@
    }
}

impl From<ExtensionMetadataIR> for ExtensionMetadata {
    fn from(ir: ExtensionMetadataIR) -> (r: ExtensionMetadata) {
        ExtensionMetadata::from_ir(&ir)
    }
}

impl vstd::std_specs::convert::FromSpecImpl<ExtensionMetadataIR> for ExtensionMetadata {
    open spec fn obeys_from_spec() -> bool {
        false
    }

    open spec fn from_spec(ir: ExtensionMetadataIR) -> ExtensionMetadata {
        choose|r: ExtensionMetadata| r@ == ir@
    }
}

impl From<MetadataIR> for Metadata {
    fn from(ir: MetadataIR) -> (r: Metadata) {
        Metadata::from_ir(&ir)
    }
}

impl vstd::std_specs::convert::FromSpecImpl<MetadataIR> for Metadata {
    open spec fn obeys_from_spec() -> bool {
        false
    }

    open spec fn from_spec(ir: MetadataIR) -> Metadata {
        choose|r: Metadata| r@ == ir@
    }
}

/// The SCALE encoding of a name: its UTF-8 bytes with their compact length.
pub open spec fn name_encoding(name: Seq<char>) -> Seq<u8> {
    encoded_bytes(vstd::utf8::encode_utf8(name))
}

/// The SCALE encoding of a parameter's metadata: its name, then its type.
pub open spec fn param_encoding(p: ParamView) -> Seq<u8> {
    name_encoding(p.name) + type_encoding(p.ty)
}

/// The encodings of the parameters, one after the other.
pub open spec fn params_encoding(ps: Seq<ParamView>) -> Seq<u8>
    decreases ps.len(),
{
    if ps.len() == 0 {
        Seq::empty()
    } else {
        params_encoding(ps.drop_last()) + param_encoding(ps.last())
    }
}

/// The SCALE encoding of a method's metadata: its name, its parameters
/// with their count, then its output type.
pub open spec fn method_encoding(m: MethodView) -> Seq<u8> {
    name_encoding(m.name) + compact(m.inputs.len()) + params_encoding(m.inputs) + type_encoding(
        m.output,
    )
}

/// The encodings of the methods, one after the other.
pub open spec fn methods_encoding(ms: Seq<MethodView>) -> Seq<u8>
    decreases ms.len(),
{
    if ms.len() == 0 {
        Seq::empty()
    } else {
        methods_encoding(ms.drop_last()) + method_encoding(ms.last())
    }
}

/// The SCALE encoding of an extension's metadata: its name, then its
/// methods with their count.
pub open spec fn extension_encoding(e: ExtensionView) -> Seq<u8> {
    name_encoding(e.name) + compact(e.methods.len()) + methods_encoding(e.methods)
}

/// The encodings of the extensions, one after the other.
pub open spec fn extensions_encoding(es: Seq<ExtensionView>) -> Seq<u8>
    decreases es.len(),
{
    if es.len() == 0 {
        Seq::empty()
    } else {
        extensions_encoding(es.drop_last()) + extension_encoding(es.last())
    }
}

/// The SCALE encoding of the metadata of extensions: the extensions with
/// their count.
pub open spec fn metadata_encoding(es: Seq<ExtensionView>) -> Seq<u8> {
    compact(es.len()) + extensions_encoding(es)
}

/// A name fits the codec's 32-bit lengths.
pub open spec fn name_wf(name: Seq<char>) -> bool {
    vstd::utf8::encode_utf8(name).len() <= u32::MAX
}

/// The parameter's name fits the codec, and so does its type.
pub open spec fn param_wf(p: ParamView) -> bool {
    name_wf(p.name) && type_wf(p.ty)
}

/// Every name, list and type of the method fits the codec.
pub open spec fn method_wf(m: MethodView) -> bool {
    &&& name_wf(m.name)
    &&& m.inputs.len() <= u32::MAX
    &&& forall|i: int| 0 <= i < m.inputs.len() ==> #[trigger] param_wf(m.inputs[i])
    &&& type_wf(m.output)
}

/// Every name, list and type of the extension fits the codec.
pub open spec fn extension_wf(e: ExtensionView) -> bool {
    &&& name_wf(e.name)
    &&& e.methods.len() <= u32::MAX
    &&& forall|i: int| 0 <= i < e.methods.len() ==> method_wf(#[trigger] e.methods[i])
}

/// Every name, list and type of the metadata fits the codec.
pub open spec fn metadata_wf(es: Seq<ExtensionView>) -> bool {
    &&& es.len() <= u32::MAX
    &&& forall|i: int| 0 <= i < es.len() ==> extension_wf(#[trigger] es[i])
}

/// Appends the encoding of a name.
fn push_name(out: &mut Vec<u8>, name: &str)
    requires
        name_wf(name@),
    ensures
        final(out)@ == old(out)@ + name_encoding(name@),
{
    push_encoded_bytes(out, name.as_bytes());
}

/// Appends the encoding of a type.
fn push_type(out: &mut Vec<u8>, ty: &XcqType)
    requires
        type_wf(ty@),
    ensures
        final(out)@ == old(out)@ + type_encoding(ty@),
{
    let mut e = ty.encode();
    out.append(&mut e);
}

impl MethodParamMetadata {
    /// The SCALE encoding of the parameter's metadata.
    pub fn encode(&self) -> (r: Vec<u8>)
        requires
            name_wf(self@.name),
            type_wf(self@.ty),
        ensures
            r@ == param_encoding(self@),
    {
        let mut out: Vec<u8> = Vec::new();
        push_name(&mut out, self.name);
        push_type(&mut out, &self.ty);
        assert(out@ =~= param_encoding(self@));
        out
    }
}

impl MethodMetadata {
    /// The SCALE encoding of the method's metadata.
    pub fn encode(&self) -> (r: Vec<u8>)
        requires
            method_wf(self@),
        ensures
            r@ == method_encoding(self@),
    {
        let ghost ps = self.inputs@.map_values(|p: MethodParamMetadata| p@);
        let mut out: Vec<u8> = Vec::new();
        push_name(&mut out, self.name);
        push_compact_len(&mut out, self.inputs.len());
        let ghost head = out@;
        let mut i: usize = 0;
        assert(ps.subrange(0, 0) =~= Seq::<ParamView>::empty());
        assert(out@ =~= head + params_encoding(ps.subrange(0, 0)));
        while i < self.inputs.len()
            invariant
                0 <= i <= self.inputs@.len(),
                ps == self.inputs@.map_values(|p: MethodParamMetadata| p@),
                method_wf(self@),
                out@ == head + params_encoding(ps.subrange(0, i as int)),
            decreases self.inputs@.len() - i,
        {
            assert(ps[i as int] == self.inputs@[i as int]@);
            assert(param_wf(self@.inputs[i as int]));
            let mut e = self.inputs[i].encode();
            out.append(&mut e);
            proof {
                let p = ps.subrange(0, i + 1);
                assert(p.drop_last() =~= ps.subrange(0, i as int));
                assert(p.last() == ps[i as int]);
            }
            assert(out@ =~= head + params_encoding(ps.subrange(0, i + 1)));
            i = i + 1;
        }
        assert(ps.subrange(0, i as int) =~= ps);
        push_type(&mut out, &self.output);
        assert(out@ =~= method_encoding(self@));
        out
    }
}

impl ExtensionMetadata {
    /// The SCALE encoding of the extension's metadata.
    pub fn encode(&self) -> (r: Vec<u8>)
        requires
            extension_wf(self@),
        ensures
            r@ == extension_encoding(self@),
    {
        let ghost ms = self.methods@.map_values(|m: MethodMetadata| m@);
        let mut out: Vec<u8> = Vec::new();
        push_name(&mut out, self.name);
        push_compact_len(&mut out, self.methods.len());
        let ghost head = out@;
        let mut i: usize = 0;
        assert(ms.subrange(0, 0) =~= Seq::<MethodView>::empty());
        assert(out@ =~= head + methods_encoding(ms.subrange(0, 0)));
        while i < self.methods.len()
            invariant
                0 <= i <= self.methods@.len(),
                ms == self.methods@.map_values(|m: MethodMetadata| m@),
                extension_wf(self@),
                out@ == head + methods_encoding(ms.subrange(0, i as int)),
            decreases self.methods@.len() - i,
        {
            assert(ms[i as int] == self.methods@[i as int]@);
            assert(method_wf(self@.methods[i as int]));
            let mut e = self.methods[i].encode();
            out.append(&mut e);
            proof {
                let p = ms.subrange(0, i + 1);
                assert(p.drop_last() =~= ms.subrange(0, i as int));
                assert(p.last() == ms[i as int]);
            }
            assert(out@ =~= head + methods_encoding(ms.subrange(0, i + 1)));
            i = i + 1;
        }
        assert(ms.subrange(0, i as int) =~= ms);
        assert(out@ =~= extension_encoding(self@));
        out
    }
}

impl Metadata {
    /// The SCALE encoding of the metadata, as a host hands it to clients.
    pub fn encode(&self) -> (r: Vec<u8>)
        requires
            metadata_wf(self@),
        ensures
            r@ == metadata_encoding(self@),
    {
        let ghost es = self@;
        let mut out: Vec<u8> = Vec::new();
        push_compact_len(&mut out, self.extensions.len());
        let ghost head = out@;
        let mut i: usize = 0;
        assert(es.subrange(0, 0) =~= Seq::<ExtensionView>::empty());
        assert(out@ =~= head + extensions_encoding(es.subrange(0, 0)));
        while i < self.extensions.len()
            invariant
                0 <= i <= self.extensions@.len(),
                es == self@,
                metadata_wf(self@),
                out@ == head + extensions_encoding(es.subrange(0, i as int)),
            decreases self.extensions@.len() - i,
        {
            assert(es[i as int] == self.extensions@[i as int]@);
            assert(extension_wf(es[i as int]));
            let mut e = self.extensions[i].encode();
            out.append(&mut e);
            proof {
                let p = es.subrange(0, i + 1);
                assert(p.drop_last() =~= es.subrange(0, i as int));
                assert(p.last() == es[i as int]);
            }
            assert(out@ =~= head + extensions_encoding(es.subrange(0, i + 1)));
            i = i + 1;
        }
        assert(es.subrange(0, i as int) =~= es);
        assert(out@ =~= metadata_encoding(self@));
        out
    }
}

proof fn lemma_params_split(a: Seq<ParamView>, b: Seq<ParamView>)
    ensures
        params_encoding(a + b) == params_encoding(a) + params_encoding(b),
    decreases b.len(),
{
    if b.len() == 0 {
        assert(a + b =~= a);
        assert(params_encoding(a) + params_encoding(b) =~= params_encoding(a));
    } else {
        lemma_params_split(a, b.drop_last());
        assert((a + b).drop_last() =~= a + b.drop_last());
        assert((a + b).last() == b.last());
        assert(params_encoding(a + b) =~= params_encoding(a) + params_encoding(b));
    }
}

/// Law: the encoding of a list of parameters is the encodings of its
/// parameters in their order: the encoding of `a + b` is that of `a`
/// followed by that of `b`, a single parameter's is its own, and the first
/// parameter's encoding comes first.
pub proof fn law_params_encoding_in_order(a: Seq<ParamView>, b: Seq<ParamView>, p: ParamView)
    ensures
        params_encoding(a + b) == params_encoding(a) + params_encoding(b),
        params_encoding(seq![p]) == param_encoding(p),
        params_encoding(Seq::<ParamView>::empty()) == Seq::<u8>::empty(),
        params_encoding(seq![p] + a) == param_encoding(p) + params_encoding(a),
{
    lemma_params_split(a, b);
    assert(seq![p].drop_last() =~= Seq::<ParamView>::empty());
    assert(seq![p].last() == p);
    assert(seq![p].len() == 1);
    assert(params_encoding(seq![p].drop_last()) == Seq::<u8>::empty());
    assert(params_encoding(seq![p]) == params_encoding(seq![p].drop_last()) + param_encoding(p));
    assert(Seq::<u8>::empty() + param_encoding(p) =~= param_encoding(p));
    assert(params_encoding(seq![p]) == param_encoding(p));
    lemma_params_split(seq![p], a);
}

proof fn lemma_methods_split(a: Seq<MethodView>, b: Seq<MethodView>)
    ensures
        methods_encoding(a + b) == methods_encoding(a) + methods_encoding(b),
    decreases b.len(),
{
    if b.len() == 0 {
        assert(a + b =~= a);
        assert(methods_encoding(a) + methods_encoding(b) =~= methods_encoding(a));
    } else {
        lemma_methods_split(a, b.drop_last());
        assert((a + b).drop_last() =~= a + b.drop_last());
        assert((a + b).last() == b.last());
        assert(methods_encoding(a + b) =~= methods_encoding(a) + methods_encoding(b));
    }
}

/// Law: the encoding of a list of methods is the encodings of its methods
/// in their order.
pub proof fn law_methods_encoding_in_order(a: Seq<MethodView>, b: Seq<MethodView>, m: MethodView)
    ensures
        methods_encoding(a + b) == methods_encoding(a) + methods_encoding(b),
        methods_encoding(seq![m]) == method_encoding(m),
        methods_encoding(Seq::<MethodView>::empty()) == Seq::<u8>::empty(),
        methods_encoding(seq![m] + a) == method_encoding(m) + methods_encoding(a),
{
    lemma_methods_split(a, b);
    assert(seq![m].drop_last() =~= Seq::<MethodView>::empty());
    assert(seq![m].last() == m);
    assert(seq![m].len() == 1);
    assert(methods_encoding(seq![m].drop_last()) == Seq::<u8>::empty());
    assert(methods_encoding(seq![m]) == methods_encoding(seq![m].drop_last()) + method_encoding(m));
    assert(Seq::<u8>::empty() + method_encoding(m) =~= method_encoding(m));
    assert(methods_encoding(seq![m]) == method_encoding(m));
    lemma_methods_split(seq![m], a);
}

proof fn lemma_extensions_split(a: Seq<ExtensionView>, b: Seq<ExtensionView>)
    ensures
        extensions_encoding(a + b) == extensions_encoding(a) + extensions_encoding(b),
    decreases b.len(),
{
    if b.len() == 0 {
        assert(a + b =~= a);
        assert(extensions_encoding(a) + extensions_encoding(b) =~= extensions_encoding(a));
    } else {
        lemma_extensions_split(a, b.drop_last());
        assert((a + b).drop_last() =~= a + b.drop_last());
        assert((a + b).last() == b.last());
        assert(extensions_encoding(a + b) =~= extensions_encoding(a) + extensions_encoding(b));
    }
}

/// Law: the encoding of a list of extensions is the encodings of its
/// extensions in their order.
pub proof fn law_extensions_encoding_in_order(a: Seq<ExtensionView>, b: Seq<ExtensionView>, e: ExtensionView)
    ensures
        extensions_encoding(a + b) == extensions_encoding(a) + extensions_encoding(b),
        extensions_encoding(seq![e]) == extension_encoding(e),
        extensions_encoding(Seq::<ExtensionView>::empty()) == Seq::<u8>::empty(),
        extensions_encoding(seq![e] + a) == extension_encoding(e) + extensions_encoding(a),
{
    lemma_extensions_split(a, b);
    assert(seq![e].drop_last() =~= Seq::<ExtensionView>::empty());
    assert(seq![e].last() == e);
    assert(seq![e].len() == 1);
    assert(extensions_encoding(seq![e].drop_last()) == Seq::<u8>::empty());
    assert(extensions_encoding(seq![e]) == extensions_encoding(seq![e].drop_last()) + extension_encoding(e));
    assert(Seq::<u8>::empty() + extension_encoding(e) =~= extension_encoding(e));
    assert(extensions_encoding(seq![e]) == extension_encoding(e));
    lemma_extensions_split(seq![e], a);
}

/// Law: a method's metadata encodes as its name, the count of its
/// parameters, the first parameter's encoding, the encodings of the others
/// in order, then its output type.
pub proof fn law_method_encoding_layout(m: MethodView)
    requires
        m.inputs.len() > 0,
    ensures
        method_encoding(m) == name_encoding(m.name) + compact(m.inputs.len()) + param_encoding(
            m.inputs[0],
        ) + params_encoding(m.inputs.drop_first()) + type_encoding(m.output),
{
    assert(m.inputs =~= seq![m.inputs[0]] + m.inputs.drop_first());
    law_params_encoding_in_order(m.inputs.drop_first(), Seq::<ParamView>::empty(), m.inputs[0]);
}

} // verus!
