//! Extensions: the calls a host offers to query programs, how a call is
//! routed to the extension it names, and who may make it.
use vstd::prelude::*;
use crate::metadata::{ExtensionMetadataIR, ExtensionView};
use crate::types::{type_encoding, type_wf};

verus! {

/// A byte string as the specifications see it.
pub type Bytes = Seq<u8>;

/// The identifier of an extension.
pub type ExtensionIdTy = u64;

#[verifier::external_type_specification]
#[verifier::external_body]
pub struct ExCodecError(parity_scale_codec::Error);

/// An error of a dispatched call.
#[derive(Debug)]
pub enum DispatchError {
    PhantomData,
}

/// Why an extension call failed.
#[derive(Debug)]
pub enum ExtensionError {
    PermissionError,
    MemoryAllocationError,
    MemoryAccessError(polkavm::MemoryAccessError),
    DecodeError(parity_scale_codec::Error),
    DispatchError(DispatchError),
    UnsupportedExtension,
}

impl From<polkavm::MemoryAccessError> for ExtensionError {
    fn from(e: polkavm::MemoryAccessError) -> (r: ExtensionError) {
        ExtensionError::MemoryAccessError(e)
    }
}

impl vstd::std_specs::convert::FromSpecImpl<polkavm::MemoryAccessError> for ExtensionError {
    open spec fn obeys_from_spec() -> bool {
        true
    }

    open spec fn from_spec(e: polkavm::MemoryAccessError) -> ExtensionError {
        ExtensionError::MemoryAccessError(e)
    }
}

/// Where a query comes from.
#[derive(Copy, Clone, PartialEq, Eq, Structural, Debug)]
pub enum InvokeSource {
    RuntimeAPI,
    XCM,
    Extrinsic,
    Runtime,
}

/// Decides which calls a query may make.
pub trait PermController {
    /// Whether the call may be made.
    spec fn spec_is_allowed(extension_id: ExtensionIdTy, call: Seq<u8>, source: InvokeSource) -> bool;

    fn is_allowed(extension_id: ExtensionIdTy, call: &[u8], source: InvokeSource) -> (r: bool)
        ensures
            r == Self::spec_is_allowed(extension_id, call@, source),
    ;
}

/// The controller that allows every call.
impl PermController for () {
    open spec fn spec_is_allowed(extension_id: ExtensionIdTy, call: Seq<u8>, source: InvokeSource) -> bool {
        true
    }

    fn is_allowed(_extension_id: ExtensionIdTy, _call: &[u8], _source: InvokeSource) -> (r: bool) {
        true
    }
}

/// A decoded call that can be carried out, giving its encoded result.
pub trait Dispatchable: Sized {
    /// `out` is an encoded result that carrying out the call may give (what
    /// the call answers may depend on the state it reads).
    spec fn spec_answers(&self, out: Bytes) -> bool;

    fn dispatch(self) -> (r: Result<Vec<u8>, DispatchError>)
        ensures
            r matches Ok(out) ==> self.spec_answers(out@),
    ;
}

/// The identifier of the extension a call belongs to.
pub trait ExtensionId {
    spec fn spec_extension_id() -> ExtensionIdTy;

    fn extension_id() -> (r: ExtensionIdTy)
        ensures
            r == Self::spec_extension_id(),
    ;
}

/// The metadata of the extension a call belongs to.
pub trait CallMetadata {
    spec fn spec_call_metadata() -> ExtensionView;

    fn call_metadata() -> (m: ExtensionMetadataIR)
        ensures
            m@ == Self::spec_call_metadata(),
    ;
}

/// A call that can be read from its SCALE encoding.
pub trait DecodeCall: Sized {
    /// The call that `data` encodes, `None` where it encodes none.
    spec fn spec_decode(data: Bytes) -> Option<Self>;

    fn decode_call(data: &[u8]) -> (r: Result<Self, parity_scale_codec::Error>)
        ensures
            match r {
                Ok(c) => Self::spec_decode(data@) == Some(c),
                Err(_) => Self::spec_decode(data@) is None,
            },
    ;
}

/// The call data of one extension.
pub trait CallData: Dispatchable + CallMetadata + ExtensionId + DecodeCall {}

impl<T: Dispatchable + CallMetadata + ExtensionId + DecodeCall> CallData for T {}

/// The extension `C` reads a call from `data`.
pub open spec fn call_decodes<C: CallData>(data: Seq<u8>) -> bool {
    C::spec_decode(data) is Some
}

/// The extension `C` reads a call from `data`, and carrying it out may
/// give `out`.
pub open spec fn call_answers<C: CallData>(data: Seq<u8>, out: Seq<u8>) -> bool {
    C::spec_decode(data) matches Some(c) && c.spec_answers(out)
}

/// `k` is the first position in `ids` that holds `id`.
pub open spec fn is_first(ids: Seq<ExtensionIdTy>, id: ExtensionIdTy, k: int) -> bool {
    &&& 0 <= k < ids.len()
    &&& ids[k] == id
    &&& forall|j: int| 0 <= j < k ==> ids[j] != id
}

/// Some position in `ids` holds `id`.
pub open spec fn handles(ids: Seq<ExtensionIdTy>, id: ExtensionIdTy) -> bool {
    exists|k: int| 0 <= k < ids.len() && ids[k] == id
}

/// The encoded output type of the method `call_index` of the first extension
/// with the identifier `id`.
pub open spec fn return_ty_of(metas: Seq<ExtensionView>, k: int, call_index: u32) -> Seq<u8> {
    type_encoding(metas[k].methods[call_index as int].output)
}

/// The extensions a host offers, tried in order.
pub trait CallDataTuple: Sized {
    /// The identifiers of the extensions, in order.
    spec fn spec_ids() -> Seq<ExtensionIdTy>;

    /// The metadata of the extensions, in order.
    spec fn spec_metadata() -> Seq<ExtensionView>;

    /// The extension at position `k` reads a call from `data`.
    spec fn spec_decodes(k: int, data: Seq<u8>) -> bool;

    /// The extension at position `k` reads a call from `data`, and carrying
    /// it out may give `out`.
    spec fn spec_answers(k: int, data: Seq<u8>, out: Seq<u8>) -> bool;

    /// Decodes and carries out a call to the first extension with the given
    /// identifier; fails with `UnsupportedExtension` exactly when there is
    /// none. Otherwise the outcome is that extension's: a decoding error
    /// exactly where it reads no call from `data`, an `Ok` only with what
    /// the call it read answers, or an error of that call.
    fn dispatch(extension_id: ExtensionIdTy, data: &[u8]) -> (r: Result<Vec<u8>, ExtensionError>)
        ensures
            r matches Err(ExtensionError::UnsupportedExtension) <==> !handles(
                Self::spec_ids(),
                extension_id,
            ),
            forall|k: int|
                is_first(Self::spec_ids(), extension_id, k) ==> {
                    &&& (r matches Err(ExtensionError::DecodeError(_))) <==> !Self::spec_decodes(
                        k,
                        data@,
                    )
                    &&& r matches Ok(out) ==> Self::spec_answers(k, data@, out@)
                    &&& (r is Ok || r matches Err(ExtensionError::DecodeError(_)) || r matches Err(
                        ExtensionError::DispatchError(_),
                    ))
                },
    ;

    /// The encoded output type of a method of the first extension with the
    /// given identifier; `UnsupportedExtension` where there is none.
    fn return_ty(extension_id: ExtensionIdTy, call_index: u32) -> (r: Result<Vec<u8>, ExtensionError>)
        requires
            forall|k: int|
                is_first(Self::spec_ids(), extension_id, k) ==> call_index
                    < Self::spec_metadata()[k].methods.len(),
        ensures
            !handles(Self::spec_ids(), extension_id) ==> r matches Err(
                ExtensionError::UnsupportedExtension,
            ),
            forall|k: int|
                is_first(Self::spec_ids(), extension_id, k) ==> (r matches Ok(b) && b@
                    == return_ty_of(Self::spec_metadata(), k, call_index)),
    ;

    /// The number of methods of the first extension with the given
    /// identifier; `None` where there is none.
    fn method_count(extension_id: ExtensionIdTy) -> (r: Option<usize>)
        ensures
            !handles(Self::spec_ids(), extension_id) ==> r is None,
            forall|k: int|
                is_first(Self::spec_ids(), extension_id, k) ==> (r matches Some(n) && n
                    == Self::spec_metadata()[k].methods.len()),
    ;
}

/// The number of methods of the extension `C`.
pub fn method_count_of<C: CallData>() -> (r: usize)
    ensures
        r == C::spec_call_metadata().methods.len(),
{
    C::call_metadata().methods.len()
}

/// Decodes a call for the extension `C` and carries it out: a decoding
/// failure gives `DecodeError`, a failing call `DispatchError`, and a call
/// that succeeds gives what the decoded call answers.
pub fn dispatch_to<C: CallData>(data: &[u8]) -> (r: Result<Vec<u8>, ExtensionError>)
    ensures
        r matches Ok(_) || r matches Err(ExtensionError::DecodeError(_)) || r matches Err(
            ExtensionError::DispatchError(_),
        ),
        !call_decodes::<C>(data@) <==> r matches Err(ExtensionError::DecodeError(_)),
        r matches Ok(out) ==> call_answers::<C>(data@, out@),
{
    match C::decode_call(data) {
        Err(e) => Err(ExtensionError::DecodeError(e)),
        Ok(call) => dispatch_result(call.dispatch()),
    }
}

/// The outcome of a dispatched call as an extension result.
pub fn dispatch_result(r: Result<Vec<u8>, DispatchError>) -> (res: Result<Vec<u8>, ExtensionError>)
    ensures
        r matches Ok(v) ==> res matches Ok(w) && w == v,
        r matches Err(e) ==> res matches Err(ExtensionError::DispatchError(f)) && f == e,
{
    match r {
        Ok(v) => Ok(v),
        Err(e) => Err(ExtensionError::DispatchError(e)),
    }
}

/// The encoded output type of the method `call_index` of the extension `C`.
pub fn return_ty_to<C: CallData>(call_index: u32) -> (r: Vec<u8>)
    requires
        call_index < C::spec_call_metadata().methods.len(),
    ensures
        r@ == type_encoding(C::spec_call_metadata().methods[call_index as int].output),
{
    let m = C::call_metadata();
    assert(m.methods@[call_index as int]@ == m@.methods[call_index as int]);
    let ty = m.methods[call_index as usize].output.type_info();
    ty.encode()
}

impl CallDataTuple for () {
    open spec fn spec_ids() -> Seq<ExtensionIdTy> {
        Seq::empty()
    }

    open spec fn spec_metadata() -> Seq<ExtensionView> {
        Seq::empty()
    }

    open spec fn spec_decodes(k: int, data: Seq<u8>) -> bool {
        false
    }

    open spec fn spec_answers(k: int, data: Seq<u8>, out: Seq<u8>) -> bool {
        false
    }

    #[allow(unused_variables)]
    fn dispatch(extension_id: ExtensionIdTy, data: &[u8]) -> (r: Result<Vec<u8>, ExtensionError>) {
        proof {
            assert(!handles(Self::spec_ids(), extension_id)) by {
                assert forall|k: int| 0 <= k < Self::spec_ids().len() implies Self::spec_ids()[k] != extension_id by {}
            }
            assert forall|k: int| !is_first(Self::spec_ids(), extension_id, k) by {}
        }
        Err(ExtensionError::UnsupportedExtension)
    }

    #[allow(unused_variables)]
    fn return_ty(extension_id: ExtensionIdTy, call_index: u32) -> (r: Result<Vec<u8>, ExtensionError>) {
        proof {
            assert forall|k: int| !is_first(Self::spec_ids(), extension_id, k) by {}
        }
        Err(ExtensionError::UnsupportedExtension)
    }

    fn method_count(extension_id: ExtensionIdTy) -> (r: Option<usize>) {
        proof {
            assert forall|k: int| !is_first(Self::spec_ids(), extension_id, k) by {}
        }
        None
    }
}

/// Law: in a host's tuple of no extensions, the extension at each position
/// is the tuple's member at that position: its identifier and its metadata
/// are that member's, and so are the calls it reads from given bytes and
/// what they answer; no other position holds an extension.
pub proof fn law_tuple_members_no(k: int, data: Seq<u8>, out: Seq<u8>)
    ensures
        <() as CallDataTuple>::spec_ids() == Seq::<ExtensionIdTy>::empty(),
        <() as CallDataTuple>::spec_metadata() == Seq::<ExtensionView>::empty(),
        !(0 <= k < 0) ==> !<() as CallDataTuple>::spec_decodes(k, data) && !<() as CallDataTuple>::spec_answers(k, data, out),
{
}

impl<A: CallData> CallDataTuple for (A,) {
    open spec fn spec_ids() -> Seq<ExtensionIdTy> {
        seq![A::spec_extension_id()]
    }

    open spec fn spec_metadata() -> Seq<ExtensionView> {
        seq![A::spec_call_metadata()]
    }

    open spec fn spec_decodes(k: int, data: Seq<u8>) -> bool {
        if k == 0 {
            call_decodes::<A>(data)
        } else {
            false
        }
    }

    open spec fn spec_answers(k: int, data: Seq<u8>, out: Seq<u8>) -> bool {
        if k == 0 {
            call_answers::<A>(data, out)
        } else {
            false
        }
    }

    #[allow(unused_variables)]
    fn dispatch(extension_id: ExtensionIdTy, data: &[u8]) -> (r: Result<Vec<u8>, ExtensionError>) {
        if extension_id == A::extension_id() {
            let r = dispatch_to::<A>(data);
            proof {
                assert(is_first(Self::spec_ids(), extension_id, 0));
                assert forall|k: int| is_first(Self::spec_ids(), extension_id, k) implies k == 0 by {
                    if k < 0 {
                        assert(Self::spec_ids()[k] != extension_id);
                    } else if k > 0 {
                        assert(Self::spec_ids()[0] == extension_id);
                    }
                }
            }
            return r;
        }
        proof {
            assert(Self::spec_ids()[0] != extension_id);
            assert(!handles(Self::spec_ids(), extension_id)) by {
                assert forall|k: int| 0 <= k < Self::spec_ids().len() implies Self::spec_ids()[k] != extension_id by {}
            }
            assert forall|k: int| !is_first(Self::spec_ids(), extension_id, k) by {}
        }
        Err(ExtensionError::UnsupportedExtension)
    }

    #[allow(unused_variables)]
    fn return_ty(extension_id: ExtensionIdTy, call_index: u32) -> (r: Result<Vec<u8>, ExtensionError>) {
        if extension_id == A::extension_id() {
            proof {
                assert(is_first(Self::spec_ids(), extension_id, 0));
                assert forall|k: int| is_first(Self::spec_ids(), extension_id, k) implies k == 0 by {
                    if k < 0 {
                        assert(Self::spec_ids()[k] != extension_id);
                    } else if k > 0 {
                        assert(Self::spec_ids()[0] == extension_id);
                    }
                }
            }
            return Ok(return_ty_to::<A>(call_index));
        }
        proof {
            assert(Self::spec_ids()[0] != extension_id);
            assert forall|k: int| !is_first(Self::spec_ids(), extension_id, k) by {}
        }
        Err(ExtensionError::UnsupportedExtension)
    }

    fn method_count(extension_id: ExtensionIdTy) -> (r: Option<usize>) {
        if extension_id == A::extension_id() {
            proof {
                assert(is_first(Self::spec_ids(), extension_id, 0));
                assert forall|k: int| is_first(Self::spec_ids(), extension_id, k) implies k == 0 by {
                    if k < 0 {
                        assert(Self::spec_ids()[k] != extension_id);
                    } else if k > 0 {
                        assert(Self::spec_ids()[0] == extension_id);
                    }
                }
            }
            return Some(method_count_of::<A>());
        }
        proof {
            assert(Self::spec_ids()[0] != extension_id);
            assert forall|k: int| !is_first(Self::spec_ids(), extension_id, k) by {}
        }
        None
    }
}

/// Law: in a host's tuple of one extension, the extension at each position
/// is the tuple's member at that position: its identifier and its metadata
/// are that member's, and so are the calls it reads from given bytes and
/// what they answer; no other position holds an extension.
pub proof fn law_tuple_members_one<A: CallData>(k: int, data: Seq<u8>, out: Seq<u8>)
    ensures
        <(A,) as CallDataTuple>::spec_ids() == seq![A::spec_extension_id()],
        <(A,) as CallDataTuple>::spec_metadata() == seq![A::spec_call_metadata()],
        <(A,) as CallDataTuple>::spec_decodes(0, data) == call_decodes::<A>(data),
        <(A,) as CallDataTuple>::spec_answers(0, data, out) == call_answers::<A>(data, out),
        !(0 <= k < 1) ==> !<(A,) as CallDataTuple>::spec_decodes(k, data) && !<(A,) as CallDataTuple>::spec_answers(k, data, out),
{
}

impl<A: CallData, B: CallData> CallDataTuple for (A, B) {
    open spec fn spec_ids() -> Seq<ExtensionIdTy> {
        seq![A::spec_extension_id(), B::spec_extension_id()]
    }

    open spec fn spec_metadata() -> Seq<ExtensionView> {
        seq![A::spec_call_metadata(), B::spec_call_metadata()]
    }

    open spec fn spec_decodes(k: int, data: Seq<u8>) -> bool {
        if k == 0 {
            call_decodes::<A>(data)
        } else if k == 1 {
            call_decodes::<B>(data)
        } else {
            false
        }
    }

    open spec fn spec_answers(k: int, data: Seq<u8>, out: Seq<u8>) -> bool {
        if k == 0 {
            call_answers::<A>(data, out)
        } else if k == 1 {
            call_answers::<B>(data, out)
        } else {
            false
        }
    }

    #[allow(unused_variables)]
    fn dispatch(extension_id: ExtensionIdTy, data: &[u8]) -> (r: Result<Vec<u8>, ExtensionError>) {
        if extension_id == A::extension_id() {
            let r = dispatch_to::<A>(data);
            proof {
                assert(is_first(Self::spec_ids(), extension_id, 0));
                assert forall|k: int| is_first(Self::spec_ids(), extension_id, k) implies k == 0 by {
                    if k < 0 {
                        assert(Self::spec_ids()[k] != extension_id);
                    } else if k > 0 {
                        assert(Self::spec_ids()[0] == extension_id);
                    }
                }
            }
            return r;
        }
        if extension_id == B::extension_id() {
            let r = dispatch_to::<B>(data);
            proof {
                assert(is_first(Self::spec_ids(), extension_id, 1));
                assert forall|k: int| is_first(Self::spec_ids(), extension_id, k) implies k == 1 by {
                    if k < 1 {
                        assert(Self::spec_ids()[k] != extension_id);
                    } else if k > 1 {
                        assert(Self::spec_ids()[1] == extension_id);
                    }
                }
            }
            return r;
        }
        proof {
            assert(Self::spec_ids()[0] != extension_id);
            assert(Self::spec_ids()[1] != extension_id);
            assert(!handles(Self::spec_ids(), extension_id)) by {
                assert forall|k: int| 0 <= k < Self::spec_ids().len() implies Self::spec_ids()[k] != extension_id by {}
            }
            assert forall|k: int| !is_first(Self::spec_ids(), extension_id, k) by {}
        }
        Err(ExtensionError::UnsupportedExtension)
    }

    #[allow(unused_variables)]
    fn return_ty(extension_id: ExtensionIdTy, call_index: u32) -> (r: Result<Vec<u8>, ExtensionError>) {
        if extension_id == A::extension_id() {
            proof {
                assert(is_first(Self::spec_ids(), extension_id, 0));
                assert forall|k: int| is_first(Self::spec_ids(), extension_id, k) implies k == 0 by {
                    if k < 0 {
                        assert(Self::spec_ids()[k] != extension_id);
                    } else if k > 0 {
                        assert(Self::spec_ids()[0] == extension_id);
                    }
                }
            }
            return Ok(return_ty_to::<A>(call_index));
        }
        if extension_id == B::extension_id() {
            proof {
                assert(is_first(Self::spec_ids(), extension_id, 1));
                assert forall|k: int| is_first(Self::spec_ids(), extension_id, k) implies k == 1 by {
                    if k < 1 {
                        assert(Self::spec_ids()[k] != extension_id);
                    } else if k > 1 {
                        assert(Self::spec_ids()[1] == extension_id);
                    }
                }
            }
            return Ok(return_ty_to::<B>(call_index));
        }
        proof {
            assert(Self::spec_ids()[0] != extension_id);
            assert(Self::spec_ids()[1] != extension_id);
            assert forall|k: int| !is_first(Self::spec_ids(), extension_id, k) by {}
        }
        Err(ExtensionError::UnsupportedExtension)
    }

    fn method_count(extension_id: ExtensionIdTy) -> (r: Option<usize>) {
        if extension_id == A::extension_id() {
            proof {
                assert(is_first(Self::spec_ids(), extension_id, 0));
                assert forall|k: int| is_first(Self::spec_ids(), extension_id, k) implies k == 0 by {
                    if k < 0 {
                        assert(Self::spec_ids()[k] != extension_id);
                    } else if k > 0 {
                        assert(Self::spec_ids()[0] == extension_id);
                    }
                }
            }
            return Some(method_count_of::<A>());
        }
        if extension_id == B::extension_id() {
            proof {
                assert(is_first(Self::spec_ids(), extension_id, 1));
                assert forall|k: int| is_first(Self::spec_ids(), extension_id, k) implies k == 1 by {
                    if k < 1 {
                        assert(Self::spec_ids()[k] != extension_id);
                    } else if k > 1 {
                        assert(Self::spec_ids()[1] == extension_id);
                    }
                }
            }
            return Some(method_count_of::<B>());
        }
        proof {
            assert(Self::spec_ids()[0] != extension_id);
            assert(Self::spec_ids()[1] != extension_id);
            assert forall|k: int| !is_first(Self::spec_ids(), extension_id, k) by {}
        }
        None
    }
}

/// Law: in a host's tuple of two extensions, the extension at each position
/// is the tuple's member at that position: its identifier and its metadata
/// are that member's, and so are the calls it reads from given bytes and
/// what they answer; no other position holds an extension.
pub proof fn law_tuple_members_two<A: CallData, B: CallData>(k: int, data: Seq<u8>, out: Seq<u8>)
    ensures
        <(A, B) as CallDataTuple>::spec_ids() == seq![A::spec_extension_id(), B::spec_extension_id()],
        <(A, B) as CallDataTuple>::spec_metadata() == seq![A::spec_call_metadata(), B::spec_call_metadata()],
        <(A, B) as CallDataTuple>::spec_decodes(0, data) == call_decodes::<A>(data),
        <(A, B) as CallDataTuple>::spec_answers(0, data, out) == call_answers::<A>(data, out),
        <(A, B) as CallDataTuple>::spec_decodes(1, data) == call_decodes::<B>(data),
        <(A, B) as CallDataTuple>::spec_answers(1, data, out) == call_answers::<B>(data, out),
        !(0 <= k < 2) ==> !<(A, B) as CallDataTuple>::spec_decodes(k, data) && !<(A, B) as CallDataTuple>::spec_answers(k, data, out),
{
}

impl<A: CallData, B: CallData, C: CallData> CallDataTuple for (A, B, C) {
    open spec fn spec_ids() -> Seq<ExtensionIdTy> {
        seq![A::spec_extension_id(), B::spec_extension_id(), C::spec_extension_id()]
    }

    open spec fn spec_metadata() -> Seq<ExtensionView> {
        seq![A::spec_call_metadata(), B::spec_call_metadata(), C::spec_call_metadata()]
    }

    open spec fn spec_decodes(k: int, data: Seq<u8>) -> bool {
        if k == 0 {
            call_decodes::<A>(data)
        } else if k == 1 {
            call_decodes::<B>(data)
        } else if k == 2 {
            call_decodes::<C>(data)
        } else {
            false
        }
    }

    open spec fn spec_answers(k: int, data: Seq<u8>, out: Seq<u8>) -> bool {
        if k == 0 {
            call_answers::<A>(data, out)
        } else if k == 1 {
            call_answers::<B>(data, out)
        } else if k == 2 {
            call_answers::<C>(data, out)
        } else {
            false
        }
    }

    #[allow(unused_variables)]
    fn dispatch(extension_id: ExtensionIdTy, data: &[u8]) -> (r: Result<Vec<u8>, ExtensionError>) {
        if extension_id == A::extension_id() {
            let r = dispatch_to::<A>(data);
            proof {
                assert(is_first(Self::spec_ids(), extension_id, 0));
                assert forall|k: int| is_first(Self::spec_ids(), extension_id, k) implies k == 0 by {
                    if k < 0 {
                        assert(Self::spec_ids()[k] != extension_id);
                    } else if k > 0 {
                        assert(Self::spec_ids()[0] == extension_id);
                    }
                }
            }
            return r;
        }
        if extension_id == B::extension_id() {
            let r = dispatch_to::<B>(data);
            proof {
                assert(is_first(Self::spec_ids(), extension_id, 1));
                assert forall|k: int| is_first(Self::spec_ids(), extension_id, k) implies k == 1 by {
                    if k < 1 {
                        assert(Self::spec_ids()[k] != extension_id);
                    } else if k > 1 {
                        assert(Self::spec_ids()[1] == extension_id);
                    }
                }
            }
            return r;
        }
        if extension_id == C::extension_id() {
            let r = dispatch_to::<C>(data);
            proof {
                assert(is_first(Self::spec_ids(), extension_id, 2));
                assert forall|k: int| is_first(Self::spec_ids(), extension_id, k) implies k == 2 by {
                    if k < 2 {
                        assert(Self::spec_ids()[k] != extension_id);
                    } else if k > 2 {
                        assert(Self::spec_ids()[2] == extension_id);
                    }
                }
            }
            return r;
        }
        proof {
            assert(Self::spec_ids()[0] != extension_id);
            assert(Self::spec_ids()[1] != extension_id);
            assert(Self::spec_ids()[2] != extension_id);
            assert(!handles(Self::spec_ids(), extension_id)) by {
                assert forall|k: int| 0 <= k < Self::spec_ids().len() implies Self::spec_ids()[k] != extension_id by {}
            }
            assert forall|k: int| !is_first(Self::spec_ids(), extension_id, k) by {}
        }
        Err(ExtensionError::UnsupportedExtension)
    }

    #[allow(unused_variables)]
    fn return_ty(extension_id: ExtensionIdTy, call_index: u32) -> (r: Result<Vec<u8>, ExtensionError>) {
        if extension_id == A::extension_id() {
            proof {
                assert(is_first(Self::spec_ids(), extension_id, 0));
                assert forall|k: int| is_first(Self::spec_ids(), extension_id, k) implies k == 0 by {
                    if k < 0 {
                        assert(Self::spec_ids()[k] != extension_id);
                    } else if k > 0 {
                        assert(Self::spec_ids()[0] == extension_id);
                    }
                }
            }
            return Ok(return_ty_to::<A>(call_index));
        }
        if extension_id == B::extension_id() {
            proof {
                assert(is_first(Self::spec_ids(), extension_id, 1));
                assert forall|k: int| is_first(Self::spec_ids(), extension_id, k) implies k == 1 by {
                    if k < 1 {
                        assert(Self::spec_ids()[k] != extension_id);
                    } else if k > 1 {
                        assert(Self::spec_ids()[1] == extension_id);
                    }
                }
            }
            return Ok(return_ty_to::<B>(call_index));
        }
        if extension_id == C::extension_id() {
            proof {
                assert(is_first(Self::spec_ids(), extension_id, 2));
                assert forall|k: int| is_first(Self::spec_ids(), extension_id, k) implies k == 2 by {
                    if k < 2 {
                        assert(Self::spec_ids()[k] != extension_id);
                    } else if k > 2 {
                        assert(Self::spec_ids()[2] == extension_id);
                    }
                }
            }
            return Ok(return_ty_to::<C>(call_index));
        }
        proof {
            assert(Self::spec_ids()[0] != extension_id);
            assert(Self::spec_ids()[1] != extension_id);
            assert(Self::spec_ids()[2] != extension_id);
            assert forall|k: int| !is_first(Self::spec_ids(), extension_id, k) by {}
        }
        Err(ExtensionError::UnsupportedExtension)
    }

    fn method_count(extension_id: ExtensionIdTy) -> (r: Option<usize>) {
        if extension_id == A::extension_id() {
            proof {
                assert(is_first(Self::spec_ids(), extension_id, 0));
                assert forall|k: int| is_first(Self::spec_ids(), extension_id, k) implies k == 0 by {
                    if k < 0 {
                        assert(Self::spec_ids()[k] != extension_id);
                    } else if k > 0 {
                        assert(Self::spec_ids()[0] == extension_id);
                    }
                }
            }
            return Some(method_count_of::<A>());
        }
        if extension_id == B::extension_id() {
            proof {
                assert(is_first(Self::spec_ids(), extension_id, 1));
                assert forall|k: int| is_first(Self::spec_ids(), extension_id, k) implies k == 1 by {
                    if k < 1 {
                        assert(Self::spec_ids()[k] != extension_id);
                    } else if k > 1 {
                        assert(Self::spec_ids()[1] == extension_id);
                    }
                }
            }
            return Some(method_count_of::<B>());
        }
        if extension_id == C::extension_id() {
            proof {
                assert(is_first(Self::spec_ids(), extension_id, 2));
                assert forall|k: int| is_first(Self::spec_ids(), extension_id, k) implies k == 2 by {
                    if k < 2 {
                        assert(Self::spec_ids()[k] != extension_id);
                    } else if k > 2 {
                        assert(Self::spec_ids()[2] == extension_id);
                    }
                }
            }
            return Some(method_count_of::<C>());
        }
        proof {
            assert(Self::spec_ids()[0] != extension_id);
            assert(Self::spec_ids()[1] != extension_id);
            assert(Self::spec_ids()[2] != extension_id);
            assert forall|k: int| !is_first(Self::spec_ids(), extension_id, k) by {}
        }
        None
    }
}

/// Law: in a host's tuple of three extensions, the extension at each position
/// is the tuple's member at that position: its identifier and its metadata
/// are that member's, and so are the calls it reads from given bytes and
/// what they answer; no other position holds an extension.
pub proof fn law_tuple_members_three<A: CallData, B: CallData, C: CallData>(k: int, data: Seq<u8>, out: Seq<u8>)
    ensures
        <(A, B, C) as CallDataTuple>::spec_ids() == seq![A::spec_extension_id(), B::spec_extension_id(), C::spec_extension_id()],
        <(A, B, C) as CallDataTuple>::spec_metadata() == seq![A::spec_call_metadata(), B::spec_call_metadata(), C::spec_call_metadata()],
        <(A, B, C) as CallDataTuple>::spec_decodes(0, data) == call_decodes::<A>(data),
        <(A, B, C) as CallDataTuple>::spec_answers(0, data, out) == call_answers::<A>(data, out),
        <(A, B, C) as CallDataTuple>::spec_decodes(1, data) == call_decodes::<B>(data),
        <(A, B, C) as CallDataTuple>::spec_answers(1, data, out) == call_answers::<B>(data, out),
        <(A, B, C) as CallDataTuple>::spec_decodes(2, data) == call_decodes::<C>(data),
        <(A, B, C) as CallDataTuple>::spec_answers(2, data, out) == call_answers::<C>(data, out),
        !(0 <= k < 3) ==> !<(A, B, C) as CallDataTuple>::spec_decodes(k, data) && !<(A, B, C) as CallDataTuple>::spec_answers(k, data, out),
{
}

impl<A: CallData, B: CallData, C: CallData, D: CallData> CallDataTuple for (A, B, C, D) {
    open spec fn spec_ids() -> Seq<ExtensionIdTy> {
        seq![A::spec_extension_id(), B::spec_extension_id(), C::spec_extension_id(), D::spec_extension_id()]
    }

    open spec fn spec_metadata() -> Seq<ExtensionView> {
        seq![A::spec_call_metadata(), B::spec_call_metadata(), C::spec_call_metadata(), D::spec_call_metadata()]
    }

    open spec fn spec_decodes(k: int, data: Seq<u8>) -> bool {
        if k == 0 {
            call_decodes::<A>(data)
        } else if k == 1 {
            call_decodes::<B>(data)
        } else if k == 2 {
            call_decodes::<C>(data)
        } else if k == 3 {
            call_decodes::<D>(data)
        } else {
            false
        }
    }

    open spec fn spec_answers(k: int, data: Seq<u8>, out: Seq<u8>) -> bool {
        if k == 0 {
            call_answers::<A>(data, out)
        } else if k == 1 {
            call_answers::<B>(data, out)
        } else if k == 2 {
            call_answers::<C>(data, out)
        } else if k == 3 {
            call_answers::<D>(data, out)
        } else {
            false
        }
    }

    #[allow(unused_variables)]
    fn dispatch(extension_id: ExtensionIdTy, data: &[u8]) -> (r: Result<Vec<u8>, ExtensionError>) {
        if extension_id == A::extension_id() {
            let r = dispatch_to::<A>(data);
            proof {
                assert(is_first(Self::spec_ids(), extension_id, 0));
                assert forall|k: int| is_first(Self::spec_ids(), extension_id, k) implies k == 0 by {
                    if k < 0 {
                        assert(Self::spec_ids()[k] != extension_id);
                    } else if k > 0 {
                        assert(Self::spec_ids()[0] == extension_id);
                    }
                }
            }
            return r;
        }
        if extension_id == B::extension_id() {
            let r = dispatch_to::<B>(data);
            proof {
                assert(is_first(Self::spec_ids(), extension_id, 1));
                assert forall|k: int| is_first(Self::spec_ids(), extension_id, k) implies k == 1 by {
                    if k < 1 {
                        assert(Self::spec_ids()[k] != extension_id);
                    } else if k > 1 {
                        assert(Self::spec_ids()[1] == extension_id);
                    }
                }
            }
            return r;
        }
        if extension_id == C::extension_id() {
            let r = dispatch_to::<C>(data);
            proof {
                assert(is_first(Self::spec_ids(), extension_id, 2));
                assert forall|k: int| is_first(Self::spec_ids(), extension_id, k) implies k == 2 by {
                    if k < 2 {
                        assert(Self::spec_ids()[k] != extension_id);
                    } else if k > 2 {
                        assert(Self::spec_ids()[2] == extension_id);
                    }
                }
            }
            return r;
        }
        if extension_id == D::extension_id() {
            let r = dispatch_to::<D>(data);
            proof {
                assert(is_first(Self::spec_ids(), extension_id, 3));
                assert forall|k: int| is_first(Self::spec_ids(), extension_id, k) implies k == 3 by {
                    if k < 3 {
                        assert(Self::spec_ids()[k] != extension_id);
                    } else if k > 3 {
                        assert(Self::spec_ids()[3] == extension_id);
                    }
                }
            }
            return r;
        }
        proof {
            assert(Self::spec_ids()[0] != extension_id);
            assert(Self::spec_ids()[1] != extension_id);
            assert(Self::spec_ids()[2] != extension_id);
            assert(Self::spec_ids()[3] != extension_id);
            assert(!handles(Self::spec_ids(), extension_id)) by {
                assert forall|k: int| 0 <= k < Self::spec_ids().len() implies Self::spec_ids()[k] != extension_id by {}
            }
            assert forall|k: int| !is_first(Self::spec_ids(), extension_id, k) by {}
        }
        Err(ExtensionError::UnsupportedExtension)
    }

    #[allow(unused_variables)]
    fn return_ty(extension_id: ExtensionIdTy, call_index: u32) -> (r: Result<Vec<u8>, ExtensionError>) {
        if extension_id == A::extension_id() {
            proof {
                assert(is_first(Self::spec_ids(), extension_id, 0));
                assert forall|k: int| is_first(Self::spec_ids(), extension_id, k) implies k == 0 by {
                    if k < 0 {
                        assert(Self::spec_ids()[k] != extension_id);
                    } else if k > 0 {
                        assert(Self::spec_ids()[0] == extension_id);
                    }
                }
            }
            return Ok(return_ty_to::<A>(call_index));
        }
        if extension_id == B::extension_id() {
            proof {
                assert(is_first(Self::spec_ids(), extension_id, 1));
                assert forall|k: int| is_first(Self::spec_ids(), extension_id, k) implies k == 1 by {
                    if k < 1 {
                        assert(Self::spec_ids()[k] != extension_id);
                    } else if k > 1 {
                        assert(Self::spec_ids()[1] == extension_id);
                    }
                }
            }
            return Ok(return_ty_to::<B>(call_index));
        }
        if extension_id == C::extension_id() {
            proof {
                assert(is_first(Self::spec_ids(), extension_id, 2));
                assert forall|k: int| is_first(Self::spec_ids(), extension_id, k) implies k == 2 by {
                    if k < 2 {
                        assert(Self::spec_ids()[k] != extension_id);
                    } else if k > 2 {
                        assert(Self::spec_ids()[2] == extension_id);
                    }
                }
            }
            return Ok(return_ty_to::<C>(call_index));
        }
        if extension_id == D::extension_id() {
            proof {
                assert(is_first(Self::spec_ids(), extension_id, 3));
                assert forall|k: int| is_first(Self::spec_ids(), extension_id, k) implies k == 3 by {
                    if k < 3 {
                        assert(Self::spec_ids()[k] != extension_id);
                    } else if k > 3 {
                        assert(Self::spec_ids()[3] == extension_id);
                    }
                }
            }
            return Ok(return_ty_to::<D>(call_index));
        }
        proof {
            assert(Self::spec_ids()[0] != extension_id);
            assert(Self::spec_ids()[1] != extension_id);
            assert(Self::spec_ids()[2] != extension_id);
            assert(Self::spec_ids()[3] != extension_id);
            assert forall|k: int| !is_first(Self::spec_ids(), extension_id, k) by {}
        }
        Err(ExtensionError::UnsupportedExtension)
    }

    fn method_count(extension_id: ExtensionIdTy) -> (r: Option<usize>) {
        if extension_id == A::extension_id() {
            proof {
                assert(is_first(Self::spec_ids(), extension_id, 0));
                assert forall|k: int| is_first(Self::spec_ids(), extension_id, k) implies k == 0 by {
                    if k < 0 {
                        assert(Self::spec_ids()[k] != extension_id);
                    } else if k > 0 {
                        assert(Self::spec_ids()[0] == extension_id);
                    }
                }
            }
            return Some(method_count_of::<A>());
        }
        if extension_id == B::extension_id() {
            proof {
                assert(is_first(Self::spec_ids(), extension_id, 1));
                assert forall|k: int| is_first(Self::spec_ids(), extension_id, k) implies k == 1 by {
                    if k < 1 {
                        assert(Self::spec_ids()[k] != extension_id);
                    } else if k > 1 {
                        assert(Self::spec_ids()[1] == extension_id);
                    }
                }
            }
            return Some(method_count_of::<B>());
        }
        if extension_id == C::extension_id() {
            proof {
                assert(is_first(Self::spec_ids(), extension_id, 2));
                assert forall|k: int| is_first(Self::spec_ids(), extension_id, k) implies k == 2 by {
                    if k < 2 {
                        assert(Self::spec_ids()[k] != extension_id);
                    } else if k > 2 {
                        assert(Self::spec_ids()[2] == extension_id);
                    }
                }
            }
            return Some(method_count_of::<C>());
        }
        if extension_id == D::extension_id() {
            proof {
                assert(is_first(Self::spec_ids(), extension_id, 3));
                assert forall|k: int| is_first(Self::spec_ids(), extension_id, k) implies k == 3 by {
                    if k < 3 {
                        assert(Self::spec_ids()[k] != extension_id);
                    } else if k > 3 {
                        assert(Self::spec_ids()[3] == extension_id);
                    }
                }
            }
            return Some(method_count_of::<D>());
        }
        proof {
            assert(Self::spec_ids()[0] != extension_id);
            assert(Self::spec_ids()[1] != extension_id);
            assert(Self::spec_ids()[2] != extension_id);
            assert(Self::spec_ids()[3] != extension_id);
            assert forall|k: int| !is_first(Self::spec_ids(), extension_id, k) by {}
        }
        None
    }
}

/// Law: in a host's tuple of four extensions, the extension at each position
/// is the tuple's member at that position: its identifier and its metadata
/// are that member's, and so are the calls it reads from given bytes and
/// what they answer; no other position holds an extension.
pub proof fn law_tuple_members_four<A: CallData, B: CallData, C: CallData, D: CallData>(k: int, data: Seq<u8>, out: Seq<u8>)
    ensures
        <(A, B, C, D) as CallDataTuple>::spec_ids() == seq![A::spec_extension_id(), B::spec_extension_id(), C::spec_extension_id(), D::spec_extension_id()],
        <(A, B, C, D) as CallDataTuple>::spec_metadata() == seq![A::spec_call_metadata(), B::spec_call_metadata(), C::spec_call_metadata(), D::spec_call_metadata()],
        <(A, B, C, D) as CallDataTuple>::spec_decodes(0, data) == call_decodes::<A>(data),
        <(A, B, C, D) as CallDataTuple>::spec_answers(0, data, out) == call_answers::<A>(data, out),
        <(A, B, C, D) as CallDataTuple>::spec_decodes(1, data) == call_decodes::<B>(data),
        <(A, B, C, D) as CallDataTuple>::spec_answers(1, data, out) == call_answers::<B>(data, out),
        <(A, B, C, D) as CallDataTuple>::spec_decodes(2, data) == call_decodes::<C>(data),
        <(A, B, C, D) as CallDataTuple>::spec_answers(2, data, out) == call_answers::<C>(data, out),
        <(A, B, C, D) as CallDataTuple>::spec_decodes(3, data) == call_decodes::<D>(data),
        <(A, B, C, D) as CallDataTuple>::spec_answers(3, data, out) == call_answers::<D>(data, out),
        !(0 <= k < 4) ==> !<(A, B, C, D) as CallDataTuple>::spec_decodes(k, data) && !<(A, B, C, D) as CallDataTuple>::spec_answers(k, data, out),
{
}

impl<A: CallData, B: CallData, C: CallData, D: CallData, E: CallData> CallDataTuple for (A, B, C, D, E) {
    open spec fn spec_ids() -> Seq<ExtensionIdTy> {
        seq![A::spec_extension_id(), B::spec_extension_id(), C::spec_extension_id(), D::spec_extension_id(), E::spec_extension_id()]
    }

    open spec fn spec_metadata() -> Seq<ExtensionView> {
        seq![A::spec_call_metadata(), B::spec_call_metadata(), C::spec_call_metadata(), D::spec_call_metadata(), E::spec_call_metadata()]
    }

    open spec fn spec_decodes(k: int, data: Seq<u8>) -> bool {
        if k == 0 {
            call_decodes::<A>(data)
        } else if k == 1 {
            call_decodes::<B>(data)
        } else if k == 2 {
            call_decodes::<C>(data)
        } else if k == 3 {
            call_decodes::<D>(data)
        } else if k == 4 {
            call_decodes::<E>(data)
        } else {
            false
        }
    }

    open spec fn spec_answers(k: int, data: Seq<u8>, out: Seq<u8>) -> bool {
        if k == 0 {
            call_answers::<A>(data, out)
        } else if k == 1 {
            call_answers::<B>(data, out)
        } else if k == 2 {
            call_answers::<C>(data, out)
        } else if k == 3 {
            call_answers::<D>(data, out)
        } else if k == 4 {
            call_answers::<E>(data, out)
        } else {
            false
        }
    }

    #[allow(unused_variables)]
    fn dispatch(extension_id: ExtensionIdTy, data: &[u8]) -> (r: Result<Vec<u8>, ExtensionError>) {
        if extension_id == A::extension_id() {
            let r = dispatch_to::<A>(data);
            proof {
                assert(is_first(Self::spec_ids(), extension_id, 0));
                assert forall|k: int| is_first(Self::spec_ids(), extension_id, k) implies k == 0 by {
                    if k < 0 {
                        assert(Self::spec_ids()[k] != extension_id);
                    } else if k > 0 {
                        assert(Self::spec_ids()[0] == extension_id);
                    }
                }
            }
            return r;
        }
        if extension_id == B::extension_id() {
            let r = dispatch_to::<B>(data);
            proof {
                assert(is_first(Self::spec_ids(), extension_id, 1));
                assert forall|k: int| is_first(Self::spec_ids(), extension_id, k) implies k == 1 by {
                    if k < 1 {
                        assert(Self::spec_ids()[k] != extension_id);
                    } else if k > 1 {
                        assert(Self::spec_ids()[1] == extension_id);
                    }
                }
            }
            return r;
        }
        if extension_id == C::extension_id() {
            let r = dispatch_to::<C>(data);
            proof {
                assert(is_first(Self::spec_ids(), extension_id, 2));
                assert forall|k: int| is_first(Self::spec_ids(), extension_id, k) implies k == 2 by {
                    if k < 2 {
                        assert(Self::spec_ids()[k] != extension_id);
                    } else if k > 2 {
                        assert(Self::spec_ids()[2] == extension_id);
                    }
                }
            }
            return r;
        }
        if extension_id == D::extension_id() {
            let r = dispatch_to::<D>(data);
            proof {
                assert(is_first(Self::spec_ids(), extension_id, 3));
                assert forall|k: int| is_first(Self::spec_ids(), extension_id, k) implies k == 3 by {
                    if k < 3 {
                        assert(Self::spec_ids()[k] != extension_id);
                    } else if k > 3 {
                        assert(Self::spec_ids()[3] == extension_id);
                    }
                }
            }
            return r;
        }
        if extension_id == E::extension_id() {
            let r = dispatch_to::<E>(data);
            proof {
                assert(is_first(Self::spec_ids(), extension_id, 4));
                assert forall|k: int| is_first(Self::spec_ids(), extension_id, k) implies k == 4 by {
                    if k < 4 {
                        assert(Self::spec_ids()[k] != extension_id);
                    } else if k > 4 {
                        assert(Self::spec_ids()[4] == extension_id);
                    }
                }
            }
            return r;
        }
        proof {
            assert(Self::spec_ids()[0] != extension_id);
            assert(Self::spec_ids()[1] != extension_id);
            assert(Self::spec_ids()[2] != extension_id);
            assert(Self::spec_ids()[3] != extension_id);
            assert(Self::spec_ids()[4] != extension_id);
            assert(!handles(Self::spec_ids(), extension_id)) by {
                assert forall|k: int| 0 <= k < Self::spec_ids().len() implies Self::spec_ids()[k] != extension_id by {}
            }
            assert forall|k: int| !is_first(Self::spec_ids(), extension_id, k) by {}
        }
        Err(ExtensionError::UnsupportedExtension)
    }

    #[allow(unused_variables)]
    fn return_ty(extension_id: ExtensionIdTy, call_index: u32) -> (r: Result<Vec<u8>, ExtensionError>) {
        if extension_id == A::extension_id() {
            proof {
                assert(is_first(Self::spec_ids(), extension_id, 0));
                assert forall|k: int| is_first(Self::spec_ids(), extension_id, k) implies k == 0 by {
                    if k < 0 {
                        assert(Self::spec_ids()[k] != extension_id);
                    } else if k > 0 {
                        assert(Self::spec_ids()[0] == extension_id);
                    }
                }
            }
            return Ok(return_ty_to::<A>(call_index));
        }
        if extension_id == B::extension_id() {
            proof {
                assert(is_first(Self::spec_ids(), extension_id, 1));
                assert forall|k: int| is_first(Self::spec_ids(), extension_id, k) implies k == 1 by {
                    if k < 1 {
                        assert(Self::spec_ids()[k] != extension_id);
                    } else if k > 1 {
                        assert(Self::spec_ids()[1] == extension_id);
                    }
                }
            }
            return Ok(return_ty_to::<B>(call_index));
        }
        if extension_id == C::extension_id() {
            proof {
                assert(is_first(Self::spec_ids(), extension_id, 2));
                assert forall|k: int| is_first(Self::spec_ids(), extension_id, k) implies k == 2 by {
                    if k < 2 {
                        assert(Self::spec_ids()[k] != extension_id);
                    } else if k > 2 {
                        assert(Self::spec_ids()[2] == extension_id);
                    }
                }
            }
            return Ok(return_ty_to::<C>(call_index));
        }
        if extension_id == D::extension_id() {
            proof {
                assert(is_first(Self::spec_ids(), extension_id, 3));
                assert forall|k: int| is_first(Self::spec_ids(), extension_id, k) implies k == 3 by {
                    if k < 3 {
                        assert(Self::spec_ids()[k] != extension_id);
                    } else if k > 3 {
                        assert(Self::spec_ids()[3] == extension_id);
                    }
                }
            }
            return Ok(return_ty_to::<D>(call_index));
        }
        if extension_id == E::extension_id() {
            proof {
                assert(is_first(Self::spec_ids(), extension_id, 4));
                assert forall|k: int| is_first(Self::spec_ids(), extension_id, k) implies k == 4 by {
                    if k < 4 {
                        assert(Self::spec_ids()[k] != extension_id);
                    } else if k > 4 {
                        assert(Self::spec_ids()[4] == extension_id);
                    }
                }
            }
            return Ok(return_ty_to::<E>(call_index));
        }
        proof {
            assert(Self::spec_ids()[0] != extension_id);
            assert(Self::spec_ids()[1] != extension_id);
            assert(Self::spec_ids()[2] != extension_id);
            assert(Self::spec_ids()[3] != extension_id);
            assert(Self::spec_ids()[4] != extension_id);
            assert forall|k: int| !is_first(Self::spec_ids(), extension_id, k) by {}
        }
        Err(ExtensionError::UnsupportedExtension)
    }

    fn method_count(extension_id: ExtensionIdTy) -> (r: Option<usize>) {
        if extension_id == A::extension_id() {
            proof {
                assert(is_first(Self::spec_ids(), extension_id, 0));
                assert forall|k: int| is_first(Self::spec_ids(), extension_id, k) implies k == 0 by {
                    if k < 0 {
                        assert(Self::spec_ids()[k] != extension_id);
                    } else if k > 0 {
                        assert(Self::spec_ids()[0] == extension_id);
                    }
                }
            }
            return Some(method_count_of::<A>());
        }
        if extension_id == B::extension_id() {
            proof {
                assert(is_first(Self::spec_ids(), extension_id, 1));
                assert forall|k: int| is_first(Self::spec_ids(), extension_id, k) implies k == 1 by {
                    if k < 1 {
                        assert(Self::spec_ids()[k] != extension_id);
                    } else if k > 1 {
                        assert(Self::spec_ids()[1] == extension_id);
                    }
                }
            }
            return Some(method_count_of::<B>());
        }
        if extension_id == C::extension_id() {
            proof {
                assert(is_first(Self::spec_ids(), extension_id, 2));
                assert forall|k: int| is_first(Self::spec_ids(), extension_id, k) implies k == 2 by {
                    if k < 2 {
                        assert(Self::spec_ids()[k] != extension_id);
                    } else if k > 2 {
                        assert(Self::spec_ids()[2] == extension_id);
                    }
                }
            }
            return Some(method_count_of::<C>());
        }
        if extension_id == D::extension_id() {
            proof {
                assert(is_first(Self::spec_ids(), extension_id, 3));
                assert forall|k: int| is_first(Self::spec_ids(), extension_id, k) implies k == 3 by {
                    if k < 3 {
                        assert(Self::spec_ids()[k] != extension_id);
                    } else if k > 3 {
                        assert(Self::spec_ids()[3] == extension_id);
                    }
                }
            }
            return Some(method_count_of::<D>());
        }
        if extension_id == E::extension_id() {
            proof {
                assert(is_first(Self::spec_ids(), extension_id, 4));
                assert forall|k: int| is_first(Self::spec_ids(), extension_id, k) implies k == 4 by {
                    if k < 4 {
                        assert(Self::spec_ids()[k] != extension_id);
                    } else if k > 4 {
                        assert(Self::spec_ids()[4] == extension_id);
                    }
                }
            }
            return Some(method_count_of::<E>());
        }
        proof {
            assert(Self::spec_ids()[0] != extension_id);
            assert(Self::spec_ids()[1] != extension_id);
            assert(Self::spec_ids()[2] != extension_id);
            assert(Self::spec_ids()[3] != extension_id);
            assert(Self::spec_ids()[4] != extension_id);
            assert forall|k: int| !is_first(Self::spec_ids(), extension_id, k) by {}
        }
        None
    }
}

/// Law: in a host's tuple of five extensions, the extension at each position
/// is the tuple's member at that position: its identifier and its metadata
/// are that member's, and so are the calls it reads from given bytes and
/// what they answer; no other position holds an extension.
pub proof fn law_tuple_members_five<A: CallData, B: CallData, C: CallData, D: CallData, E: CallData>(k: int, data: Seq<u8>, out: Seq<u8>)
    ensures
        <(A, B, C, D, E) as CallDataTuple>::spec_ids() == seq![A::spec_extension_id(), B::spec_extension_id(), C::spec_extension_id(), D::spec_extension_id(), E::spec_extension_id()],
        <(A, B, C, D, E) as CallDataTuple>::spec_metadata() == seq![A::spec_call_metadata(), B::spec_call_metadata(), C::spec_call_metadata(), D::spec_call_metadata(), E::spec_call_metadata()],
        <(A, B, C, D, E) as CallDataTuple>::spec_decodes(0, data) == call_decodes::<A>(data),
        <(A, B, C, D, E) as CallDataTuple>::spec_answers(0, data, out) == call_answers::<A>(data, out),
        <(A, B, C, D, E) as CallDataTuple>::spec_decodes(1, data) == call_decodes::<B>(data),
        <(A, B, C, D, E) as CallDataTuple>::spec_answers(1, data, out) == call_answers::<B>(data, out),
        <(A, B, C, D, E) as CallDataTuple>::spec_decodes(2, data) == call_decodes::<C>(data),
        <(A, B, C, D, E) as CallDataTuple>::spec_answers(2, data, out) == call_answers::<C>(data, out),
        <(A, B, C, D, E) as CallDataTuple>::spec_decodes(3, data) == call_decodes::<D>(data),
        <(A, B, C, D, E) as CallDataTuple>::spec_answers(3, data, out) == call_answers::<D>(data, out),
        <(A, B, C, D, E) as CallDataTuple>::spec_decodes(4, data) == call_decodes::<E>(data),
        <(A, B, C, D, E) as CallDataTuple>::spec_answers(4, data, out) == call_answers::<E>(data, out),
        !(0 <= k < 5) ==> !<(A, B, C, D, E) as CallDataTuple>::spec_decodes(k, data) && !<(A, B, C, D, E) as CallDataTuple>::spec_answers(k, data, out),
{
}

impl<A: CallData, B: CallData, C: CallData, D: CallData, E: CallData, F: CallData> CallDataTuple for (A, B, C, D, E, F) {
    open spec fn spec_ids() -> Seq<ExtensionIdTy> {
        seq![A::spec_extension_id(), B::spec_extension_id(), C::spec_extension_id(), D::spec_extension_id(), E::spec_extension_id(), F::spec_extension_id()]
    }

    open spec fn spec_metadata() -> Seq<ExtensionView> {
        seq![A::spec_call_metadata(), B::spec_call_metadata(), C::spec_call_metadata(), D::spec_call_metadata(), E::spec_call_metadata(), F::spec_call_metadata()]
    }

    open spec fn spec_decodes(k: int, data: Seq<u8>) -> bool {
        if k == 0 {
            call_decodes::<A>(data)
        } else if k == 1 {
            call_decodes::<B>(data)
        } else if k == 2 {
            call_decodes::<C>(data)
        } else if k == 3 {
            call_decodes::<D>(data)
        } else if k == 4 {
            call_decodes::<E>(data)
        } else if k == 5 {
            call_decodes::<F>(data)
        } else {
            false
        }
    }

    open spec fn spec_answers(k: int, data: Seq<u8>, out: Seq<u8>) -> bool {
        if k == 0 {
            call_answers::<A>(data, out)
        } else if k == 1 {
            call_answers::<B>(data, out)
        } else if k == 2 {
            call_answers::<C>(data, out)
        } else if k == 3 {
            call_answers::<D>(data, out)
        } else if k == 4 {
            call_answers::<E>(data, out)
        } else if k == 5 {
            call_answers::<F>(data, out)
        } else {
            false
        }
    }

    #[allow(unused_variables)]
    fn dispatch(extension_id: ExtensionIdTy, data: &[u8]) -> (r: Result<Vec<u8>, ExtensionError>) {
        if extension_id == A::extension_id() {
            let r = dispatch_to::<A>(data);
            proof {
                assert(is_first(Self::spec_ids(), extension_id, 0));
                assert forall|k: int| is_first(Self::spec_ids(), extension_id, k) implies k == 0 by {
                    if k < 0 {
                        assert(Self::spec_ids()[k] != extension_id);
                    } else if k > 0 {
                        assert(Self::spec_ids()[0] == extension_id);
                    }
                }
            }
            return r;
        }
        if extension_id == B::extension_id() {
            let r = dispatch_to::<B>(data);
            proof {
                assert(is_first(Self::spec_ids(), extension_id, 1));
                assert forall|k: int| is_first(Self::spec_ids(), extension_id, k) implies k == 1 by {
                    if k < 1 {
                        assert(Self::spec_ids()[k] != extension_id);
                    } else if k > 1 {
                        assert(Self::spec_ids()[1] == extension_id);
                    }
                }
            }
            return r;
        }
        if extension_id == C::extension_id() {
            let r = dispatch_to::<C>(data);
            proof {
                assert(is_first(Self::spec_ids(), extension_id, 2));
                assert forall|k: int| is_first(Self::spec_ids(), extension_id, k) implies k == 2 by {
                    if k < 2 {
                        assert(Self::spec_ids()[k] != extension_id);
                    } else if k > 2 {
                        assert(Self::spec_ids()[2] == extension_id);
                    }
                }
            }
            return r;
        }
        if extension_id == D::extension_id() {
            let r = dispatch_to::<D>(data);
            proof {
                assert(is_first(Self::spec_ids(), extension_id, 3));
                assert forall|k: int| is_first(Self::spec_ids(), extension_id, k) implies k == 3 by {
                    if k < 3 {
                        assert(Self::spec_ids()[k] != extension_id);
                    } else if k > 3 {
                        assert(Self::spec_ids()[3] == extension_id);
                    }
                }
            }
            return r;
        }
        if extension_id == E::extension_id() {
            let r = dispatch_to::<E>(data);
            proof {
                assert(is_first(Self::spec_ids(), extension_id, 4));
                assert forall|k: int| is_first(Self::spec_ids(), extension_id, k) implies k == 4 by {
                    if k < 4 {
                        assert(Self::spec_ids()[k] != extension_id);
                    } else if k > 4 {
                        assert(Self::spec_ids()[4] == extension_id);
                    }
                }
            }
            return r;
        }
        if extension_id == F::extension_id() {
            let r = dispatch_to::<F>(data);
            proof {
                assert(is_first(Self::spec_ids(), extension_id, 5));
                assert forall|k: int| is_first(Self::spec_ids(), extension_id, k) implies k == 5 by {
                    if k < 5 {
                        assert(Self::spec_ids()[k] != extension_id);
                    } else if k > 5 {
                        assert(Self::spec_ids()[5] == extension_id);
                    }
                }
            }
            return r;
        }
        proof {
            assert(Self::spec_ids()[0] != extension_id);
            assert(Self::spec_ids()[1] != extension_id);
            assert(Self::spec_ids()[2] != extension_id);
            assert(Self::spec_ids()[3] != extension_id);
            assert(Self::spec_ids()[4] != extension_id);
            assert(Self::spec_ids()[5] != extension_id);
            assert(!handles(Self::spec_ids(), extension_id)) by {
                assert forall|k: int| 0 <= k < Self::spec_ids().len() implies Self::spec_ids()[k] != extension_id by {}
            }
            assert forall|k: int| !is_first(Self::spec_ids(), extension_id, k) by {}
        }
        Err(ExtensionError::UnsupportedExtension)
    }

    #[allow(unused_variables)]
    fn return_ty(extension_id: ExtensionIdTy, call_index: u32) -> (r: Result<Vec<u8>, ExtensionError>) {
        if extension_id == A::extension_id() {
            proof {
                assert(is_first(Self::spec_ids(), extension_id, 0));
                assert forall|k: int| is_first(Self::spec_ids(), extension_id, k) implies k == 0 by {
                    if k < 0 {
                        assert(Self::spec_ids()[k] != extension_id);
                    } else if k > 0 {
                        assert(Self::spec_ids()[0] == extension_id);
                    }
                }
            }
            return Ok(return_ty_to::<A>(call_index));
        }
        if extension_id == B::extension_id() {
            proof {
                assert(is_first(Self::spec_ids(), extension_id, 1));
                assert forall|k: int| is_first(Self::spec_ids(), extension_id, k) implies k == 1 by {
                    if k < 1 {
                        assert(Self::spec_ids()[k] != extension_id);
                    } else if k > 1 {
                        assert(Self::spec_ids()[1] == extension_id);
                    }
                }
            }
            return Ok(return_ty_to::<B>(call_index));
        }
        if extension_id == C::extension_id() {
            proof {
                assert(is_first(Self::spec_ids(), extension_id, 2));
                assert forall|k: int| is_first(Self::spec_ids(), extension_id, k) implies k == 2 by {
                    if k < 2 {
                        assert(Self::spec_ids()[k] != extension_id);
                    } else if k > 2 {
                        assert(Self::spec_ids()[2] == extension_id);
                    }
                }
            }
            return Ok(return_ty_to::<C>(call_index));
        }
        if extension_id == D::extension_id() {
            proof {
                assert(is_first(Self::spec_ids(), extension_id, 3));
                assert forall|k: int| is_first(Self::spec_ids(), extension_id, k) implies k == 3 by {
                    if k < 3 {
                        assert(Self::spec_ids()[k] != extension_id);
                    } else if k > 3 {
                        assert(Self::spec_ids()[3] == extension_id);
                    }
                }
            }
            return Ok(return_ty_to::<D>(call_index));
        }
        if extension_id == E::extension_id() {
            proof {
                assert(is_first(Self::spec_ids(), extension_id, 4));
                assert forall|k: int| is_first(Self::spec_ids(), extension_id, k) implies k == 4 by {
                    if k < 4 {
                        assert(Self::spec_ids()[k] != extension_id);
                    } else if k > 4 {
                        assert(Self::spec_ids()[4] == extension_id);
                    }
                }
            }
            return Ok(return_ty_to::<E>(call_index));
        }
        if extension_id == F::extension_id() {
            proof {
                assert(is_first(Self::spec_ids(), extension_id, 5));
                assert forall|k: int| is_first(Self::spec_ids(), extension_id, k) implies k == 5 by {
                    if k < 5 {
                        assert(Self::spec_ids()[k] != extension_id);
                    } else if k > 5 {
                        assert(Self::spec_ids()[5] == extension_id);
                    }
                }
            }
            return Ok(return_ty_to::<F>(call_index));
        }
        proof {
            assert(Self::spec_ids()[0] != extension_id);
            assert(Self::spec_ids()[1] != extension_id);
            assert(Self::spec_ids()[2] != extension_id);
            assert(Self::spec_ids()[3] != extension_id);
            assert(Self::spec_ids()[4] != extension_id);
            assert(Self::spec_ids()[5] != extension_id);
            assert forall|k: int| !is_first(Self::spec_ids(), extension_id, k) by {}
        }
        Err(ExtensionError::UnsupportedExtension)
    }

    fn method_count(extension_id: ExtensionIdTy) -> (r: Option<usize>) {
        if extension_id == A::extension_id() {
            proof {
                assert(is_first(Self::spec_ids(), extension_id, 0));
                assert forall|k: int| is_first(Self::spec_ids(), extension_id, k) implies k == 0 by {
                    if k < 0 {
                        assert(Self::spec_ids()[k] != extension_id);
                    } else if k > 0 {
                        assert(Self::spec_ids()[0] == extension_id);
                    }
                }
            }
            return Some(method_count_of::<A>());
        }
        if extension_id == B::extension_id() {
            proof {
                assert(is_first(Self::spec_ids(), extension_id, 1));
                assert forall|k: int| is_first(Self::spec_ids(), extension_id, k) implies k == 1 by {
                    if k < 1 {
                        assert(Self::spec_ids()[k] != extension_id);
                    } else if k > 1 {
                        assert(Self::spec_ids()[1] == extension_id);
                    }
                }
            }
            return Some(method_count_of::<B>());
        }
        if extension_id == C::extension_id() {
            proof {
                assert(is_first(Self::spec_ids(), extension_id, 2));
                assert forall|k: int| is_first(Self::spec_ids(), extension_id, k) implies k == 2 by {
                    if k < 2 {
                        assert(Self::spec_ids()[k] != extension_id);
                    } else if k > 2 {
                        assert(Self::spec_ids()[2] == extension_id);
                    }
                }
            }
            return Some(method_count_of::<C>());
        }
        if extension_id == D::extension_id() {
            proof {
                assert(is_first(Self::spec_ids(), extension_id, 3));
                assert forall|k: int| is_first(Self::spec_ids(), extension_id, k) implies k == 3 by {
                    if k < 3 {
                        assert(Self::spec_ids()[k] != extension_id);
                    } else if k > 3 {
                        assert(Self::spec_ids()[3] == extension_id);
                    }
                }
            }
            return Some(method_count_of::<D>());
        }
        if extension_id == E::extension_id() {
            proof {
                assert(is_first(Self::spec_ids(), extension_id, 4));
                assert forall|k: int| is_first(Self::spec_ids(), extension_id, k) implies k == 4 by {
                    if k < 4 {
                        assert(Self::spec_ids()[k] != extension_id);
                    } else if k > 4 {
                        assert(Self::spec_ids()[4] == extension_id);
                    }
                }
            }
            return Some(method_count_of::<E>());
        }
        if extension_id == F::extension_id() {
            proof {
                assert(is_first(Self::spec_ids(), extension_id, 5));
                assert forall|k: int| is_first(Self::spec_ids(), extension_id, k) implies k == 5 by {
                    if k < 5 {
                        assert(Self::spec_ids()[k] != extension_id);
                    } else if k > 5 {
                        assert(Self::spec_ids()[5] == extension_id);
                    }
                }
            }
            return Some(method_count_of::<F>());
        }
        proof {
            assert(Self::spec_ids()[0] != extension_id);
            assert(Self::spec_ids()[1] != extension_id);
            assert(Self::spec_ids()[2] != extension_id);
            assert(Self::spec_ids()[3] != extension_id);
            assert(Self::spec_ids()[4] != extension_id);
            assert(Self::spec_ids()[5] != extension_id);
            assert forall|k: int| !is_first(Self::spec_ids(), extension_id, k) by {}
        }
        None
    }
}

/// Law: in a host's tuple of six extensions, the extension at each position
/// is the tuple's member at that position: its identifier and its metadata
/// are that member's, and so are the calls it reads from given bytes and
/// what they answer; no other position holds an extension.
pub proof fn law_tuple_members_six<A: CallData, B: CallData, C: CallData, D: CallData, E: CallData, F: CallData>(k: int, data: Seq<u8>, out: Seq<u8>)
    ensures
        <(A, B, C, D, E, F) as CallDataTuple>::spec_ids() == seq![A::spec_extension_id(), B::spec_extension_id(), C::spec_extension_id(), D::spec_extension_id(), E::spec_extension_id(), F::spec_extension_id()],
        <(A, B, C, D, E, F) as CallDataTuple>::spec_metadata() == seq![A::spec_call_metadata(), B::spec_call_metadata(), C::spec_call_metadata(), D::spec_call_metadata(), E::spec_call_metadata(), F::spec_call_metadata()],
        <(A, B, C, D, E, F) as CallDataTuple>::spec_decodes(0, data) == call_decodes::<A>(data),
        <(A, B, C, D, E, F) as CallDataTuple>::spec_answers(0, data, out) == call_answers::<A>(data, out),
        <(A, B, C, D, E, F) as CallDataTuple>::spec_decodes(1, data) == call_decodes::<B>(data),
        <(A, B, C, D, E, F) as CallDataTuple>::spec_answers(1, data, out) == call_answers::<B>(data, out),
        <(A, B, C, D, E, F) as CallDataTuple>::spec_decodes(2, data) == call_decodes::<C>(data),
        <(A, B, C, D, E, F) as CallDataTuple>::spec_answers(2, data, out) == call_answers::<C>(data, out),
        <(A, B, C, D, E, F) as CallDataTuple>::spec_decodes(3, data) == call_decodes::<D>(data),
        <(A, B, C, D, E, F) as CallDataTuple>::spec_answers(3, data, out) == call_answers::<D>(data, out),
        <(A, B, C, D, E, F) as CallDataTuple>::spec_decodes(4, data) == call_decodes::<E>(data),
        <(A, B, C, D, E, F) as CallDataTuple>::spec_answers(4, data, out) == call_answers::<E>(data, out),
        <(A, B, C, D, E, F) as CallDataTuple>::spec_decodes(5, data) == call_decodes::<F>(data),
        <(A, B, C, D, E, F) as CallDataTuple>::spec_answers(5, data, out) == call_answers::<F>(data, out),
        !(0 <= k < 6) ==> !<(A, B, C, D, E, F) as CallDataTuple>::spec_decodes(k, data) && !<(A, B, C, D, E, F) as CallDataTuple>::spec_answers(k, data, out),
{
}

impl<A: CallData, B: CallData, C: CallData, D: CallData, E: CallData, F: CallData, G: CallData> CallDataTuple for (A, B, C, D, E, F, G) {
    open spec fn spec_ids() -> Seq<ExtensionIdTy> {
        seq![A::spec_extension_id(), B::spec_extension_id(), C::spec_extension_id(), D::spec_extension_id(), E::spec_extension_id(), F::spec_extension_id(), G::spec_extension_id()]
    }

    open spec fn spec_metadata() -> Seq<ExtensionView> {
        seq![A::spec_call_metadata(), B::spec_call_metadata(), C::spec_call_metadata(), D::spec_call_metadata(), E::spec_call_metadata(), F::spec_call_metadata(), G::spec_call_metadata()]
    }

    open spec fn spec_decodes(k: int, data: Seq<u8>) -> bool {
        if k == 0 {
            call_decodes::<A>(data)
        } else if k == 1 {
            call_decodes::<B>(data)
        } else if k == 2 {
            call_decodes::<C>(data)
        } else if k == 3 {
            call_decodes::<D>(data)
        } else if k == 4 {
            call_decodes::<E>(data)
        } else if k == 5 {
            call_decodes::<F>(data)
        } else if k == 6 {
            call_decodes::<G>(data)
        } else {
            false
        }
    }

    open spec fn spec_answers(k: int, data: Seq<u8>, out: Seq<u8>) -> bool {
        if k == 0 {
            call_answers::<A>(data, out)
        } else if k == 1 {
            call_answers::<B>(data, out)
        } else if k == 2 {
            call_answers::<C>(data, out)
        } else if k == 3 {
            call_answers::<D>(data, out)
        } else if k == 4 {
            call_answers::<E>(data, out)
        } else if k == 5 {
            call_answers::<F>(data, out)
        } else if k == 6 {
            call_answers::<G>(data, out)
        } else {
            false
        }
    }

    #[allow(unused_variables)]
    fn dispatch(extension_id: ExtensionIdTy, data: &[u8]) -> (r: Result<Vec<u8>, ExtensionError>) {
        if extension_id == A::extension_id() {
            let r = dispatch_to::<A>(data);
            proof {
                assert(is_first(Self::spec_ids(), extension_id, 0));
                assert forall|k: int| is_first(Self::spec_ids(), extension_id, k) implies k == 0 by {
                    if k < 0 {
                        assert(Self::spec_ids()[k] != extension_id);
                    } else if k > 0 {
                        assert(Self::spec_ids()[0] == extension_id);
                    }
                }
            }
            return r;
        }
        if extension_id == B::extension_id() {
            let r = dispatch_to::<B>(data);
            proof {
                assert(is_first(Self::spec_ids(), extension_id, 1));
                assert forall|k: int| is_first(Self::spec_ids(), extension_id, k) implies k == 1 by {
                    if k < 1 {
                        assert(Self::spec_ids()[k] != extension_id);
                    } else if k > 1 {
                        assert(Self::spec_ids()[1] == extension_id);
                    }
                }
            }
            return r;
        }
        if extension_id == C::extension_id() {
            let r = dispatch_to::<C>(data);
            proof {
                assert(is_first(Self::spec_ids(), extension_id, 2));
                assert forall|k: int| is_first(Self::spec_ids(), extension_id, k) implies k == 2 by {
                    if k < 2 {
                        assert(Self::spec_ids()[k] != extension_id);
                    } else if k > 2 {
                        assert(Self::spec_ids()[2] == extension_id);
                    }
                }
            }
            return r;
        }
        if extension_id == D::extension_id() {
            let r = dispatch_to::<D>(data);
            proof {
                assert(is_first(Self::spec_ids(), extension_id, 3));
                assert forall|k: int| is_first(Self::spec_ids(), extension_id, k) implies k == 3 by {
                    if k < 3 {
                        assert(Self::spec_ids()[k] != extension_id);
                    } else if k > 3 {
                        assert(Self::spec_ids()[3] == extension_id);
                    }
                }
            }
            return r;
        }
        if extension_id == E::extension_id() {
            let r = dispatch_to::<E>(data);
            proof {
                assert(is_first(Self::spec_ids(), extension_id, 4));
                assert forall|k: int| is_first(Self::spec_ids(), extension_id, k) implies k == 4 by {
                    if k < 4 {
                        assert(Self::spec_ids()[k] != extension_id);
                    } else if k > 4 {
                        assert(Self::spec_ids()[4] == extension_id);
                    }
                }
            }
            return r;
        }
        if extension_id == F::extension_id() {
            let r = dispatch_to::<F>(data);
            proof {
                assert(is_first(Self::spec_ids(), extension_id, 5));
                assert forall|k: int| is_first(Self::spec_ids(), extension_id, k) implies k == 5 by {
                    if k < 5 {
                        assert(Self::spec_ids()[k] != extension_id);
                    } else if k > 5 {
                        assert(Self::spec_ids()[5] == extension_id);
                    }
                }
            }
            return r;
        }
        if extension_id == G::extension_id() {
            let r = dispatch_to::<G>(data);
            proof {
                assert(is_first(Self::spec_ids(), extension_id, 6));
                assert forall|k: int| is_first(Self::spec_ids(), extension_id, k) implies k == 6 by {
                    if k < 6 {
                        assert(Self::spec_ids()[k] != extension_id);
                    } else if k > 6 {
                        assert(Self::spec_ids()[6] == extension_id);
                    }
                }
            }
            return r;
        }
        proof {
            assert(Self::spec_ids()[0] != extension_id);
            assert(Self::spec_ids()[1] != extension_id);
            assert(Self::spec_ids()[2] != extension_id);
            assert(Self::spec_ids()[3] != extension_id);
            assert(Self::spec_ids()[4] != extension_id);
            assert(Self::spec_ids()[5] != extension_id);
            assert(Self::spec_ids()[6] != extension_id);
            assert(!handles(Self::spec_ids(), extension_id)) by {
                assert forall|k: int| 0 <= k < Self::spec_ids().len() implies Self::spec_ids()[k] != extension_id by {}
            }
            assert forall|k: int| !is_first(Self::spec_ids(), extension_id, k) by {}
        }
        Err(ExtensionError::UnsupportedExtension)
    }

    #[allow(unused_variables)]
    fn return_ty(extension_id: ExtensionIdTy, call_index: u32) -> (r: Result<Vec<u8>, ExtensionError>) {
        if extension_id == A::extension_id() {
            proof {
                assert(is_first(Self::spec_ids(), extension_id, 0));
                assert forall|k: int| is_first(Self::spec_ids(), extension_id, k) implies k == 0 by {
                    if k < 0 {
                        assert(Self::spec_ids()[k] != extension_id);
                    } else if k > 0 {
                        assert(Self::spec_ids()[0] == extension_id);
                    }
                }
            }
            return Ok(return_ty_to::<A>(call_index));
        }
        if extension_id == B::extension_id() {
            proof {
                assert(is_first(Self::spec_ids(), extension_id, 1));
                assert forall|k: int| is_first(Self::spec_ids(), extension_id, k) implies k == 1 by {
                    if k < 1 {
                        assert(Self::spec_ids()[k] != extension_id);
                    } else if k > 1 {
                        assert(Self::spec_ids()[1] == extension_id);
                    }
                }
            }
            return Ok(return_ty_to::<B>(call_index));
        }
        if extension_id == C::extension_id() {
            proof {
                assert(is_first(Self::spec_ids(), extension_id, 2));
                assert forall|k: int| is_first(Self::spec_ids(), extension_id, k) implies k == 2 by {
                    if k < 2 {
                        assert(Self::spec_ids()[k] != extension_id);
                    } else if k > 2 {
                        assert(Self::spec_ids()[2] == extension_id);
                    }
                }
            }
            return Ok(return_ty_to::<C>(call_index));
        }
        if extension_id == D::extension_id() {
            proof {
                assert(is_first(Self::spec_ids(), extension_id, 3));
                assert forall|k: int| is_first(Self::spec_ids(), extension_id, k) implies k == 3 by {
                    if k < 3 {
                        assert(Self::spec_ids()[k] != extension_id);
                    } else if k > 3 {
                        assert(Self::spec_ids()[3] == extension_id);
                    }
                }
            }
            return Ok(return_ty_to::<D>(call_index));
        }
        if extension_id == E::extension_id() {
            proof {
                assert(is_first(Self::spec_ids(), extension_id, 4));
                assert forall|k: int| is_first(Self::spec_ids(), extension_id, k) implies k == 4 by {
                    if k < 4 {
                        assert(Self::spec_ids()[k] != extension_id);
                    } else if k > 4 {
                        assert(Self::spec_ids()[4] == extension_id);
                    }
                }
            }
            return Ok(return_ty_to::<E>(call_index));
        }
        if extension_id == F::extension_id() {
            proof {
                assert(is_first(Self::spec_ids(), extension_id, 5));
                assert forall|k: int| is_first(Self::spec_ids(), extension_id, k) implies k == 5 by {
                    if k < 5 {
                        assert(Self::spec_ids()[k] != extension_id);
                    } else if k > 5 {
                        assert(Self::spec_ids()[5] == extension_id);
                    }
                }
            }
            return Ok(return_ty_to::<F>(call_index));
        }
        if extension_id == G::extension_id() {
            proof {
                assert(is_first(Self::spec_ids(), extension_id, 6));
                assert forall|k: int| is_first(Self::spec_ids(), extension_id, k) implies k == 6 by {
                    if k < 6 {
                        assert(Self::spec_ids()[k] != extension_id);
                    } else if k > 6 {
                        assert(Self::spec_ids()[6] == extension_id);
                    }
                }
            }
            return Ok(return_ty_to::<G>(call_index));
        }
        proof {
            assert(Self::spec_ids()[0] != extension_id);
            assert(Self::spec_ids()[1] != extension_id);
            assert(Self::spec_ids()[2] != extension_id);
            assert(Self::spec_ids()[3] != extension_id);
            assert(Self::spec_ids()[4] != extension_id);
            assert(Self::spec_ids()[5] != extension_id);
            assert(Self::spec_ids()[6] != extension_id);
            assert forall|k: int| !is_first(Self::spec_ids(), extension_id, k) by {}
        }
        Err(ExtensionError::UnsupportedExtension)
    }

    fn method_count(extension_id: ExtensionIdTy) -> (r: Option<usize>) {
        if extension_id == A::extension_id() {
            proof {
                assert(is_first(Self::spec_ids(), extension_id, 0));
                assert forall|k: int| is_first(Self::spec_ids(), extension_id, k) implies k == 0 by {
                    if k < 0 {
                        assert(Self::spec_ids()[k] != extension_id);
                    } else if k > 0 {
                        assert(Self::spec_ids()[0] == extension_id);
                    }
                }
            }
            return Some(method_count_of::<A>());
        }
        if extension_id == B::extension_id() {
            proof {
                assert(is_first(Self::spec_ids(), extension_id, 1));
                assert forall|k: int| is_first(Self::spec_ids(), extension_id, k) implies k == 1 by {
                    if k < 1 {
                        assert(Self::spec_ids()[k] != extension_id);
                    } else if k > 1 {
                        assert(Self::spec_ids()[1] == extension_id);
                    }
                }
            }
            return Some(method_count_of::<B>());
        }
        if extension_id == C::extension_id() {
            proof {
                assert(is_first(Self::spec_ids(), extension_id, 2));
                assert forall|k: int| is_first(Self::spec_ids(), extension_id, k) implies k == 2 by {
                    if k < 2 {
                        assert(Self::spec_ids()[k] != extension_id);
                    } else if k > 2 {
                        assert(Self::spec_ids()[2] == extension_id);
                    }
                }
            }
            return Some(method_count_of::<C>());
        }
        if extension_id == D::extension_id() {
            proof {
                assert(is_first(Self::spec_ids(), extension_id, 3));
                assert forall|k: int| is_first(Self::spec_ids(), extension_id, k) implies k == 3 by {
                    if k < 3 {
                        assert(Self::spec_ids()[k] != extension_id);
                    } else if k > 3 {
                        assert(Self::spec_ids()[3] == extension_id);
                    }
                }
            }
            return Some(method_count_of::<D>());
        }
        if extension_id == E::extension_id() {
            proof {
                assert(is_first(Self::spec_ids(), extension_id, 4));
                assert forall|k: int| is_first(Self::spec_ids(), extension_id, k) implies k == 4 by {
                    if k < 4 {
                        assert(Self::spec_ids()[k] != extension_id);
                    } else if k > 4 {
                        assert(Self::spec_ids()[4] == extension_id);
                    }
                }
            }
            return Some(method_count_of::<E>());
        }
        if extension_id == F::extension_id() {
            proof {
                assert(is_first(Self::spec_ids(), extension_id, 5));
                assert forall|k: int| is_first(Self::spec_ids(), extension_id, k) implies k == 5 by {
                    if k < 5 {
                        assert(Self::spec_ids()[k] != extension_id);
                    } else if k > 5 {
                        assert(Self::spec_ids()[5] == extension_id);
                    }
                }
            }
            return Some(method_count_of::<F>());
        }
        if extension_id == G::extension_id() {
            proof {
                assert(is_first(Self::spec_ids(), extension_id, 6));
                assert forall|k: int| is_first(Self::spec_ids(), extension_id, k) implies k == 6 by {
                    if k < 6 {
                        assert(Self::spec_ids()[k] != extension_id);
                    } else if k > 6 {
                        assert(Self::spec_ids()[6] == extension_id);
                    }
                }
            }
            return Some(method_count_of::<G>());
        }
        proof {
            assert(Self::spec_ids()[0] != extension_id);
            assert(Self::spec_ids()[1] != extension_id);
            assert(Self::spec_ids()[2] != extension_id);
            assert(Self::spec_ids()[3] != extension_id);
            assert(Self::spec_ids()[4] != extension_id);
            assert(Self::spec_ids()[5] != extension_id);
            assert(Self::spec_ids()[6] != extension_id);
            assert forall|k: int| !is_first(Self::spec_ids(), extension_id, k) by {}
        }
        None
    }
}

/// Law: in a host's tuple of seven extensions, the extension at each position
/// is the tuple's member at that position: its identifier and its metadata
/// are that member's, and so are the calls it reads from given bytes and
/// what they answer; no other position holds an extension.
pub proof fn law_tuple_members_seven<A: CallData, B: CallData, C: CallData, D: CallData, E: CallData, F: CallData, G: CallData>(k: int, data: Seq<u8>, out: Seq<u8>)
    ensures
        <(A, B, C, D, E, F, G) as CallDataTuple>::spec_ids() == seq![A::spec_extension_id(), B::spec_extension_id(), C::spec_extension_id(), D::spec_extension_id(), E::spec_extension_id(), F::spec_extension_id(), G::spec_extension_id()],
        <(A, B, C, D, E, F, G) as CallDataTuple>::spec_metadata() == seq![A::spec_call_metadata(), B::spec_call_metadata(), C::spec_call_metadata(), D::spec_call_metadata(), E::spec_call_metadata(), F::spec_call_metadata(), G::spec_call_metadata()],
        <(A, B, C, D, E, F, G) as CallDataTuple>::spec_decodes(0, data) == call_decodes::<A>(data),
        <(A, B, C, D, E, F, G) as CallDataTuple>::spec_answers(0, data, out) == call_answers::<A>(data, out),
        <(A, B, C, D, E, F, G) as CallDataTuple>::spec_decodes(1, data) == call_decodes::<B>(data),
        <(A, B, C, D, E, F, G) as CallDataTuple>::spec_answers(1, data, out) == call_answers::<B>(data, out),
        <(A, B, C, D, E, F, G) as CallDataTuple>::spec_decodes(2, data) == call_decodes::<C>(data),
        <(A, B, C, D, E, F, G) as CallDataTuple>::spec_answers(2, data, out) == call_answers::<C>(data, out),
        <(A, B, C, D, E, F, G) as CallDataTuple>::spec_decodes(3, data) == call_decodes::<D>(data),
        <(A, B, C, D, E, F, G) as CallDataTuple>::spec_answers(3, data, out) == call_answers::<D>(data, out),
        <(A, B, C, D, E, F, G) as CallDataTuple>::spec_decodes(4, data) == call_decodes::<E>(data),
        <(A, B, C, D, E, F, G) as CallDataTuple>::spec_answers(4, data, out) == call_answers::<E>(data, out),
        <(A, B, C, D, E, F, G) as CallDataTuple>::spec_decodes(5, data) == call_decodes::<F>(data),
        <(A, B, C, D, E, F, G) as CallDataTuple>::spec_answers(5, data, out) == call_answers::<F>(data, out),
        <(A, B, C, D, E, F, G) as CallDataTuple>::spec_decodes(6, data) == call_decodes::<G>(data),
        <(A, B, C, D, E, F, G) as CallDataTuple>::spec_answers(6, data, out) == call_answers::<G>(data, out),
        !(0 <= k < 7) ==> !<(A, B, C, D, E, F, G) as CallDataTuple>::spec_decodes(k, data) && !<(A, B, C, D, E, F, G) as CallDataTuple>::spec_answers(k, data, out),
{
}

impl<A: CallData, B: CallData, C: CallData, D: CallData, E: CallData, F: CallData, G: CallData, H: CallData> CallDataTuple for (A, B, C, D, E, F, G, H) {
    open spec fn spec_ids() -> Seq<ExtensionIdTy> {
        seq![A::spec_extension_id(), B::spec_extension_id(), C::spec_extension_id(), D::spec_extension_id(), E::spec_extension_id(), F::spec_extension_id(), G::spec_extension_id(), H::spec_extension_id()]
    }

    open spec fn spec_metadata() -> Seq<ExtensionView> {
        seq![A::spec_call_metadata(), B::spec_call_metadata(), C::spec_call_metadata(), D::spec_call_metadata(), E::spec_call_metadata(), F::spec_call_metadata(), G::spec_call_metadata(), H::spec_call_metadata()]
    }

    open spec fn spec_decodes(k: int, data: Seq<u8>) -> bool {
        if k == 0 {
            call_decodes::<A>(data)
        } else if k == 1 {
            call_decodes::<B>(data)
        } else if k == 2 {
            call_decodes::<C>(data)
        } else if k == 3 {
            call_decodes::<D>(data)
        } else if k == 4 {
            call_decodes::<E>(data)
        } else if k == 5 {
            call_decodes::<F>(data)
        } else if k == 6 {
            call_decodes::<G>(data)
        } else if k == 7 {
            call_decodes::<H>(data)
        } else {
            false
        }
    }

    open spec fn spec_answers(k: int, data: Seq<u8>, out: Seq<u8>) -> bool {
        if k == 0 {
            call_answers::<A>(data, out)
        } else if k == 1 {
            call_answers::<B>(data, out)
        } else if k == 2 {
            call_answers::<C>(data, out)
        } else if k == 3 {
            call_answers::<D>(data, out)
        } else if k == 4 {
            call_answers::<E>(data, out)
        } else if k == 5 {
            call_answers::<F>(data, out)
        } else if k == 6 {
            call_answers::<G>(data, out)
        } else if k == 7 {
            call_answers::<H>(data, out)
        } else {
            false
        }
    }

    #[allow(unused_variables)]
    fn dispatch(extension_id: ExtensionIdTy, data: &[u8]) -> (r: Result<Vec<u8>, ExtensionError>) {
        if extension_id == A::extension_id() {
            let r = dispatch_to::<A>(data);
            proof {
                assert(is_first(Self::spec_ids(), extension_id, 0));
                assert forall|k: int| is_first(Self::spec_ids(), extension_id, k) implies k == 0 by {
                    if k < 0 {
                        assert(Self::spec_ids()[k] != extension_id);
                    } else if k > 0 {
                        assert(Self::spec_ids()[0] == extension_id);
                    }
                }
            }
            return r;
        }
        if extension_id == B::extension_id() {
            let r = dispatch_to::<B>(data);
            proof {
                assert(is_first(Self::spec_ids(), extension_id, 1));
                assert forall|k: int| is_first(Self::spec_ids(), extension_id, k) implies k == 1 by {
                    if k < 1 {
                        assert(Self::spec_ids()[k] != extension_id);
                    } else if k > 1 {
                        assert(Self::spec_ids()[1] == extension_id);
                    }
                }
            }
            return r;
        }
        if extension_id == C::extension_id() {
            let r = dispatch_to::<C>(data);
            proof {
                assert(is_first(Self::spec_ids(), extension_id, 2));
                assert forall|k: int| is_first(Self::spec_ids(), extension_id, k) implies k == 2 by {
                    if k < 2 {
                        assert(Self::spec_ids()[k] != extension_id);
                    } else if k > 2 {
                        assert(Self::spec_ids()[2] == extension_id);
                    }
                }
            }
            return r;
        }
        if extension_id == D::extension_id() {
            let r = dispatch_to::<D>(data);
            proof {
                assert(is_first(Self::spec_ids(), extension_id, 3));
                assert forall|k: int| is_first(Self::spec_ids(), extension_id, k) implies k == 3 by {
                    if k < 3 {
                        assert(Self::spec_ids()[k] != extension_id);
                    } else if k > 3 {
                        assert(Self::spec_ids()[3] == extension_id);
                    }
                }
            }
            return r;
        }
        if extension_id == E::extension_id() {
            let r = dispatch_to::<E>(data);
            proof {
                assert(is_first(Self::spec_ids(), extension_id, 4));
                assert forall|k: int| is_first(Self::spec_ids(), extension_id, k) implies k == 4 by {
                    if k < 4 {
                        assert(Self::spec_ids()[k] != extension_id);
                    } else if k > 4 {
                        assert(Self::spec_ids()[4] == extension_id);
                    }
                }
            }
            return r;
        }
        if extension_id == F::extension_id() {
            let r = dispatch_to::<F>(data);
            proof {
                assert(is_first(Self::spec_ids(), extension_id, 5));
                assert forall|k: int| is_first(Self::spec_ids(), extension_id, k) implies k == 5 by {
                    if k < 5 {
                        assert(Self::spec_ids()[k] != extension_id);
                    } else if k > 5 {
                        assert(Self::spec_ids()[5] == extension_id);
                    }
                }
            }
            return r;
        }
        if extension_id == G::extension_id() {
            let r = dispatch_to::<G>(data);
            proof {
                assert(is_first(Self::spec_ids(), extension_id, 6));
                assert forall|k: int| is_first(Self::spec_ids(), extension_id, k) implies k == 6 by {
                    if k < 6 {
                        assert(Self::spec_ids()[k] != extension_id);
                    } else if k > 6 {
                        assert(Self::spec_ids()[6] == extension_id);
                    }
                }
            }
            return r;
        }
        if extension_id == H::extension_id() {
            let r = dispatch_to::<H>(data);
            proof {
                assert(is_first(Self::spec_ids(), extension_id, 7));
                assert forall|k: int| is_first(Self::spec_ids(), extension_id, k) implies k == 7 by {
                    if k < 7 {
                        assert(Self::spec_ids()[k] != extension_id);
                    } else if k > 7 {
                        assert(Self::spec_ids()[7] == extension_id);
                    }
                }
            }
            return r;
        }
        proof {
            assert(Self::spec_ids()[0] != extension_id);
            assert(Self::spec_ids()[1] != extension_id);
            assert(Self::spec_ids()[2] != extension_id);
            assert(Self::spec_ids()[3] != extension_id);
            assert(Self::spec_ids()[4] != extension_id);
            assert(Self::spec_ids()[5] != extension_id);
            assert(Self::spec_ids()[6] != extension_id);
            assert(Self::spec_ids()[7] != extension_id);
            assert(!handles(Self::spec_ids(), extension_id)) by {
                assert forall|k: int| 0 <= k < Self::spec_ids().len() implies Self::spec_ids()[k] != extension_id by {}
            }
            assert forall|k: int| !is_first(Self::spec_ids(), extension_id, k) by {}
        }
        Err(ExtensionError::UnsupportedExtension)
    }

    #[allow(unused_variables)]
    fn return_ty(extension_id: ExtensionIdTy, call_index: u32) -> (r: Result<Vec<u8>, ExtensionError>) {
        if extension_id == A::extension_id() {
            proof {
                assert(is_first(Self::spec_ids(), extension_id, 0));
                assert forall|k: int| is_first(Self::spec_ids(), extension_id, k) implies k == 0 by {
                    if k < 0 {
                        assert(Self::spec_ids()[k] != extension_id);
                    } else if k > 0 {
                        assert(Self::spec_ids()[0] == extension_id);
                    }
                }
            }
            return Ok(return_ty_to::<A>(call_index));
        }
        if extension_id == B::extension_id() {
            proof {
                assert(is_first(Self::spec_ids(), extension_id, 1));
                assert forall|k: int| is_first(Self::spec_ids(), extension_id, k) implies k == 1 by {
                    if k < 1 {
                        assert(Self::spec_ids()[k] != extension_id);
                    } else if k > 1 {
                        assert(Self::spec_ids()[1] == extension_id);
                    }
                }
            }
            return Ok(return_ty_to::<B>(call_index));
        }
        if extension_id == C::extension_id() {
            proof {
                assert(is_first(Self::spec_ids(), extension_id, 2));
                assert forall|k: int| is_first(Self::spec_ids(), extension_id, k) implies k == 2 by {
                    if k < 2 {
                        assert(Self::spec_ids()[k] != extension_id);
                    } else if k > 2 {
                        assert(Self::spec_ids()[2] == extension_id);
                    }
                }
            }
            return Ok(return_ty_to::<C>(call_index));
        }
        if extension_id == D::extension_id() {
            proof {
                assert(is_first(Self::spec_ids(), extension_id, 3));
                assert forall|k: int| is_first(Self::spec_ids(), extension_id, k) implies k == 3 by {
                    if k < 3 {
                        assert(Self::spec_ids()[k] != extension_id);
                    } else if k > 3 {
                        assert(Self::spec_ids()[3] == extension_id);
                    }
                }
            }
            return Ok(return_ty_to::<D>(call_index));
        }
        if extension_id == E::extension_id() {
            proof {
                assert(is_first(Self::spec_ids(), extension_id, 4));
                assert forall|k: int| is_first(Self::spec_ids(), extension_id, k) implies k == 4 by {
                    if k < 4 {
                        assert(Self::spec_ids()[k] != extension_id);
                    } else if k > 4 {
                        assert(Self::spec_ids()[4] == extension_id);
                    }
                }
            }
            return Ok(return_ty_to::<E>(call_index));
        }
        if extension_id == F::extension_id() {
            proof {
                assert(is_first(Self::spec_ids(), extension_id, 5));
                assert forall|k: int| is_first(Self::spec_ids(), extension_id, k) implies k == 5 by {
                    if k < 5 {
                        assert(Self::spec_ids()[k] != extension_id);
                    } else if k > 5 {
                        assert(Self::spec_ids()[5] == extension_id);
                    }
                }
            }
            return Ok(return_ty_to::<F>(call_index));
        }
        if extension_id == G::extension_id() {
            proof {
                assert(is_first(Self::spec_ids(), extension_id, 6));
                assert forall|k: int| is_first(Self::spec_ids(), extension_id, k) implies k == 6 by {
                    if k < 6 {
                        assert(Self::spec_ids()[k] != extension_id);
                    } else if k > 6 {
                        assert(Self::spec_ids()[6] == extension_id);
                    }
                }
            }
            return Ok(return_ty_to::<G>(call_index));
        }
        if extension_id == H::extension_id() {
            proof {
                assert(is_first(Self::spec_ids(), extension_id, 7));
                assert forall|k: int| is_first(Self::spec_ids(), extension_id, k) implies k == 7 by {
                    if k < 7 {
                        assert(Self::spec_ids()[k] != extension_id);
                    } else if k > 7 {
                        assert(Self::spec_ids()[7] == extension_id);
                    }
                }
            }
            return Ok(return_ty_to::<H>(call_index));
        }
        proof {
            assert(Self::spec_ids()[0] != extension_id);
            assert(Self::spec_ids()[1] != extension_id);
            assert(Self::spec_ids()[2] != extension_id);
            assert(Self::spec_ids()[3] != extension_id);
            assert(Self::spec_ids()[4] != extension_id);
            assert(Self::spec_ids()[5] != extension_id);
            assert(Self::spec_ids()[6] != extension_id);
            assert(Self::spec_ids()[7] != extension_id);
            assert forall|k: int| !is_first(Self::spec_ids(), extension_id, k) by {}
        }
        Err(ExtensionError::UnsupportedExtension)
    }

    fn method_count(extension_id: ExtensionIdTy) -> (r: Option<usize>) {
        if extension_id == A::extension_id() {
            proof {
                assert(is_first(Self::spec_ids(), extension_id, 0));
                assert forall|k: int| is_first(Self::spec_ids(), extension_id, k) implies k == 0 by {
                    if k < 0 {
                        assert(Self::spec_ids()[k] != extension_id);
                    } else if k > 0 {
                        assert(Self::spec_ids()[0] == extension_id);
                    }
                }
            }
            return Some(method_count_of::<A>());
        }
        if extension_id == B::extension_id() {
            proof {
                assert(is_first(Self::spec_ids(), extension_id, 1));
                assert forall|k: int| is_first(Self::spec_ids(), extension_id, k) implies k == 1 by {
                    if k < 1 {
                        assert(Self::spec_ids()[k] != extension_id);
                    } else if k > 1 {
                        assert(Self::spec_ids()[1] == extension_id);
                    }
                }
            }
            return Some(method_count_of::<B>());
        }
        if extension_id == C::extension_id() {
            proof {
                assert(is_first(Self::spec_ids(), extension_id, 2));
                assert forall|k: int| is_first(Self::spec_ids(), extension_id, k) implies k == 2 by {
                    if k < 2 {
                        assert(Self::spec_ids()[k] != extension_id);
                    } else if k > 2 {
                        assert(Self::spec_ids()[2] == extension_id);
                    }
                }
            }
            return Some(method_count_of::<C>());
        }
        if extension_id == D::extension_id() {
            proof {
                assert(is_first(Self::spec_ids(), extension_id, 3));
                assert forall|k: int| is_first(Self::spec_ids(), extension_id, k) implies k == 3 by {
                    if k < 3 {
                        assert(Self::spec_ids()[k] != extension_id);
                    } else if k > 3 {
                        assert(Self::spec_ids()[3] == extension_id);
                    }
                }
            }
            return Some(method_count_of::<D>());
        }
        if extension_id == E::extension_id() {
            proof {
                assert(is_first(Self::spec_ids(), extension_id, 4));
                assert forall|k: int| is_first(Self::spec_ids(), extension_id, k) implies k == 4 by {
                    if k < 4 {
                        assert(Self::spec_ids()[k] != extension_id);
                    } else if k > 4 {
                        assert(Self::spec_ids()[4] == extension_id);
                    }
                }
            }
            return Some(method_count_of::<E>());
        }
        if extension_id == F::extension_id() {
            proof {
                assert(is_first(Self::spec_ids(), extension_id, 5));
                assert forall|k: int| is_first(Self::spec_ids(), extension_id, k) implies k == 5 by {
                    if k < 5 {
                        assert(Self::spec_ids()[k] != extension_id);
                    } else if k > 5 {
                        assert(Self::spec_ids()[5] == extension_id);
                    }
                }
            }
            return Some(method_count_of::<F>());
        }
        if extension_id == G::extension_id() {
            proof {
                assert(is_first(Self::spec_ids(), extension_id, 6));
                assert forall|k: int| is_first(Self::spec_ids(), extension_id, k) implies k == 6 by {
                    if k < 6 {
                        assert(Self::spec_ids()[k] != extension_id);
                    } else if k > 6 {
                        assert(Self::spec_ids()[6] == extension_id);
                    }
                }
            }
            return Some(method_count_of::<G>());
        }
        if extension_id == H::extension_id() {
            proof {
                assert(is_first(Self::spec_ids(), extension_id, 7));
                assert forall|k: int| is_first(Self::spec_ids(), extension_id, k) implies k == 7 by {
                    if k < 7 {
                        assert(Self::spec_ids()[k] != extension_id);
                    } else if k > 7 {
                        assert(Self::spec_ids()[7] == extension_id);
                    }
                }
            }
            return Some(method_count_of::<H>());
        }
        proof {
            assert(Self::spec_ids()[0] != extension_id);
            assert(Self::spec_ids()[1] != extension_id);
            assert(Self::spec_ids()[2] != extension_id);
            assert(Self::spec_ids()[3] != extension_id);
            assert(Self::spec_ids()[4] != extension_id);
            assert(Self::spec_ids()[5] != extension_id);
            assert(Self::spec_ids()[6] != extension_id);
            assert(Self::spec_ids()[7] != extension_id);
            assert forall|k: int| !is_first(Self::spec_ids(), extension_id, k) by {}
        }
        None
    }
}

/// Law: in a host's tuple of eight extensions, the extension at each position
/// is the tuple's member at that position: its identifier and its metadata
/// are that member's, and so are the calls it reads from given bytes and
/// what they answer; no other position holds an extension.
pub proof fn law_tuple_members_eight<A: CallData, B: CallData, C: CallData, D: CallData, E: CallData, F: CallData, G: CallData, H: CallData>(k: int, data: Seq<u8>, out: Seq<u8>)
    ensures
        <(A, B, C, D, E, F, G, H) as CallDataTuple>::spec_ids() == seq![A::spec_extension_id(), B::spec_extension_id(), C::spec_extension_id(), D::spec_extension_id(), E::spec_extension_id(), F::spec_extension_id(), G::spec_extension_id(), H::spec_extension_id()],
        <(A, B, C, D, E, F, G, H) as CallDataTuple>::spec_metadata() == seq![A::spec_call_metadata(), B::spec_call_metadata(), C::spec_call_metadata(), D::spec_call_metadata(), E::spec_call_metadata(), F::spec_call_metadata(), G::spec_call_metadata(), H::spec_call_metadata()],
        <(A, B, C, D, E, F, G, H) as CallDataTuple>::spec_decodes(0, data) == call_decodes::<A>(data),
        <(A, B, C, D, E, F, G, H) as CallDataTuple>::spec_answers(0, data, out) == call_answers::<A>(data, out),
        <(A, B, C, D, E, F, G, H) as CallDataTuple>::spec_decodes(1, data) == call_decodes::<B>(data),
        <(A, B, C, D, E, F, G, H) as CallDataTuple>::spec_answers(1, data, out) == call_answers::<B>(data, out),
        <(A, B, C, D, E, F, G, H) as CallDataTuple>::spec_decodes(2, data) == call_decodes::<C>(data),
        <(A, B, C, D, E, F, G, H) as CallDataTuple>::spec_answers(2, data, out) == call_answers::<C>(data, out),
        <(A, B, C, D, E, F, G, H) as CallDataTuple>::spec_decodes(3, data) == call_decodes::<D>(data),
        <(A, B, C, D, E, F, G, H) as CallDataTuple>::spec_answers(3, data, out) == call_answers::<D>(data, out),
        <(A, B, C, D, E, F, G, H) as CallDataTuple>::spec_decodes(4, data) == call_decodes::<E>(data),
        <(A, B, C, D, E, F, G, H) as CallDataTuple>::spec_answers(4, data, out) == call_answers::<E>(data, out),
        <(A, B, C, D, E, F, G, H) as CallDataTuple>::spec_decodes(5, data) == call_decodes::<F>(data),
        <(A, B, C, D, E, F, G, H) as CallDataTuple>::spec_answers(5, data, out) == call_answers::<F>(data, out),
        <(A, B, C, D, E, F, G, H) as CallDataTuple>::spec_decodes(6, data) == call_decodes::<G>(data),
        <(A, B, C, D, E, F, G, H) as CallDataTuple>::spec_answers(6, data, out) == call_answers::<G>(data, out),
        <(A, B, C, D, E, F, G, H) as CallDataTuple>::spec_decodes(7, data) == call_decodes::<H>(data),
        <(A, B, C, D, E, F, G, H) as CallDataTuple>::spec_answers(7, data, out) == call_answers::<H>(data, out),
        !(0 <= k < 8) ==> !<(A, B, C, D, E, F, G, H) as CallDataTuple>::spec_decodes(k, data) && !<(A, B, C, D, E, F, G, H) as CallDataTuple>::spec_answers(k, data, out),
{
}

impl<A: CallData, B: CallData, C: CallData, D: CallData, E: CallData, F: CallData, G: CallData, H: CallData, I: CallData> CallDataTuple for (A, B, C, D, E, F, G, H, I) {
    open spec fn spec_ids() -> Seq<ExtensionIdTy> {
        seq![A::spec_extension_id(), B::spec_extension_id(), C::spec_extension_id(), D::spec_extension_id(), E::spec_extension_id(), F::spec_extension_id(), G::spec_extension_id(), H::spec_extension_id(), I::spec_extension_id()]
    }

    open spec fn spec_metadata() -> Seq<ExtensionView> {
        seq![A::spec_call_metadata(), B::spec_call_metadata(), C::spec_call_metadata(), D::spec_call_metadata(), E::spec_call_metadata(), F::spec_call_metadata(), G::spec_call_metadata(), H::spec_call_metadata(), I::spec_call_metadata()]
    }

    open spec fn spec_decodes(k: int, data: Seq<u8>) -> bool {
        if k == 0 {
            call_decodes::<A>(data)
        } else if k == 1 {
            call_decodes::<B>(data)
        } else if k == 2 {
            call_decodes::<C>(data)
        } else if k == 3 {
            call_decodes::<D>(data)
        } else if k == 4 {
            call_decodes::<E>(data)
        } else if k == 5 {
            call_decodes::<F>(data)
        } else if k == 6 {
            call_decodes::<G>(data)
        } else if k == 7 {
            call_decodes::<H>(data)
        } else if k == 8 {
            call_decodes::<I>(data)
        } else {
            false
        }
    }

    open spec fn spec_answers(k: int, data: Seq<u8>, out: Seq<u8>) -> bool {
        if k == 0 {
            call_answers::<A>(data, out)
        } else if k == 1 {
            call_answers::<B>(data, out)
        } else if k == 2 {
            call_answers::<C>(data, out)
        } else if k == 3 {
            call_answers::<D>(data, out)
        } else if k == 4 {
            call_answers::<E>(data, out)
        } else if k == 5 {
            call_answers::<F>(data, out)
        } else if k == 6 {
            call_answers::<G>(data, out)
        } else if k == 7 {
            call_answers::<H>(data, out)
        } else if k == 8 {
            call_answers::<I>(data, out)
        } else {
            false
        }
    }

    #[allow(unused_variables)]
    fn dispatch(extension_id: ExtensionIdTy, data: &[u8]) -> (r: Result<Vec<u8>, ExtensionError>) {
        if extension_id == A::extension_id() {
            let r = dispatch_to::<A>(data);
            proof {
                assert(is_first(Self::spec_ids(), extension_id, 0));
                assert forall|k: int| is_first(Self::spec_ids(), extension_id, k) implies k == 0 by {
                    if k < 0 {
                        assert(Self::spec_ids()[k] != extension_id);
                    } else if k > 0 {
                        assert(Self::spec_ids()[0] == extension_id);
                    }
                }
            }
            return r;
        }
        if extension_id == B::extension_id() {
            let r = dispatch_to::<B>(data);
            proof {
                assert(is_first(Self::spec_ids(), extension_id, 1));
                assert forall|k: int| is_first(Self::spec_ids(), extension_id, k) implies k == 1 by {
                    if k < 1 {
                        assert(Self::spec_ids()[k] != extension_id);
                    } else if k > 1 {
                        assert(Self::spec_ids()[1] == extension_id);
                    }
                }
            }
            return r;
        }
        if extension_id == C::extension_id() {
            let r = dispatch_to::<C>(data);
            proof {
                assert(is_first(Self::spec_ids(), extension_id, 2));
                assert forall|k: int| is_first(Self::spec_ids(), extension_id, k) implies k == 2 by {
                    if k < 2 {
                        assert(Self::spec_ids()[k] != extension_id);
                    } else if k > 2 {
                        assert(Self::spec_ids()[2] == extension_id);
                    }
                }
            }
            return r;
        }
        if extension_id == D::extension_id() {
            let r = dispatch_to::<D>(data);
            proof {
                assert(is_first(Self::spec_ids(), extension_id, 3));
                assert forall|k: int| is_first(Self::spec_ids(), extension_id, k) implies k == 3 by {
                    if k < 3 {
                        assert(Self::spec_ids()[k] != extension_id);
                    } else if k > 3 {
                        assert(Self::spec_ids()[3] == extension_id);
                    }
                }
            }
            return r;
        }
        if extension_id == E::extension_id() {
            let r = dispatch_to::<E>(data);
            proof {
                assert(is_first(Self::spec_ids(), extension_id, 4));
                assert forall|k: int| is_first(Self::spec_ids(), extension_id, k) implies k == 4 by {
                    if k < 4 {
                        assert(Self::spec_ids()[k] != extension_id);
                    } else if k > 4 {
                        assert(Self::spec_ids()[4] == extension_id);
                    }
                }
            }
            return r;
        }
        if extension_id == F::extension_id() {
            let r = dispatch_to::<F>(data);
            proof {
                assert(is_first(Self::spec_ids(), extension_id, 5));
                assert forall|k: int| is_first(Self::spec_ids(), extension_id, k) implies k == 5 by {
                    if k < 5 {
                        assert(Self::spec_ids()[k] != extension_id);
                    } else if k > 5 {
                        assert(Self::spec_ids()[5] == extension_id);
                    }
                }
            }
            return r;
        }
        if extension_id == G::extension_id() {
            let r = dispatch_to::<G>(data);
            proof {
                assert(is_first(Self::spec_ids(), extension_id, 6));
                assert forall|k: int| is_first(Self::spec_ids(), extension_id, k) implies k == 6 by {
                    if k < 6 {
                        assert(Self::spec_ids()[k] != extension_id);
                    } else if k > 6 {
                        assert(Self::spec_ids()[6] == extension_id);
                    }
                }
            }
            return r;
        }
        if extension_id == H::extension_id() {
            let r = dispatch_to::<H>(data);
            proof {
                assert(is_first(Self::spec_ids(), extension_id, 7));
                assert forall|k: int| is_first(Self::spec_ids(), extension_id, k) implies k == 7 by {
                    if k < 7 {
                        assert(Self::spec_ids()[k] != extension_id);
                    } else if k > 7 {
                        assert(Self::spec_ids()[7] == extension_id);
                    }
                }
            }
            return r;
        }
        if extension_id == I::extension_id() {
            let r = dispatch_to::<I>(data);
            proof {
                assert(is_first(Self::spec_ids(), extension_id, 8));
                assert forall|k: int| is_first(Self::spec_ids(), extension_id, k) implies k == 8 by {
                    if k < 8 {
                        assert(Self::spec_ids()[k] != extension_id);
                    } else if k > 8 {
                        assert(Self::spec_ids()[8] == extension_id);
                    }
                }
            }
            return r;
        }
        proof {
            assert(Self::spec_ids()[0] != extension_id);
            assert(Self::spec_ids()[1] != extension_id);
            assert(Self::spec_ids()[2] != extension_id);
            assert(Self::spec_ids()[3] != extension_id);
            assert(Self::spec_ids()[4] != extension_id);
            assert(Self::spec_ids()[5] != extension_id);
            assert(Self::spec_ids()[6] != extension_id);
            assert(Self::spec_ids()[7] != extension_id);
            assert(Self::spec_ids()[8] != extension_id);
            assert(!handles(Self::spec_ids(), extension_id)) by {
                assert forall|k: int| 0 <= k < Self::spec_ids().len() implies Self::spec_ids()[k] != extension_id by {}
            }
            assert forall|k: int| !is_first(Self::spec_ids(), extension_id, k) by {}
        }
        Err(ExtensionError::UnsupportedExtension)
    }

    #[allow(unused_variables)]
    fn return_ty(extension_id: ExtensionIdTy, call_index: u32) -> (r: Result<Vec<u8>, ExtensionError>) {
        if extension_id == A::extension_id() {
            proof {
                assert(is_first(Self::spec_ids(), extension_id, 0));
                assert forall|k: int| is_first(Self::spec_ids(), extension_id, k) implies k == 0 by {
                    if k < 0 {
                        assert(Self::spec_ids()[k] != extension_id);
                    } else if k > 0 {
                        assert(Self::spec_ids()[0] == extension_id);
                    }
                }
            }
            return Ok(return_ty_to::<A>(call_index));
        }
        if extension_id == B::extension_id() {
            proof {
                assert(is_first(Self::spec_ids(), extension_id, 1));
                assert forall|k: int| is_first(Self::spec_ids(), extension_id, k) implies k == 1 by {
                    if k < 1 {
                        assert(Self::spec_ids()[k] != extension_id);
                    } else if k > 1 {
                        assert(Self::spec_ids()[1] == extension_id);
                    }
                }
            }
            return Ok(return_ty_to::<B>(call_index));
        }
        if extension_id == C::extension_id() {
            proof {
                assert(is_first(Self::spec_ids(), extension_id, 2));
                assert forall|k: int| is_first(Self::spec_ids(), extension_id, k) implies k == 2 by {
                    if k < 2 {
                        assert(Self::spec_ids()[k] != extension_id);
                    } else if k > 2 {
                        assert(Self::spec_ids()[2] == extension_id);
                    }
                }
            }
            return Ok(return_ty_to::<C>(call_index));
        }
        if extension_id == D::extension_id() {
            proof {
                assert(is_first(Self::spec_ids(), extension_id, 3));
                assert forall|k: int| is_first(Self::spec_ids(), extension_id, k) implies k == 3 by {
                    if k < 3 {
                        assert(Self::spec_ids()[k] != extension_id);
                    } else if k > 3 {
                        assert(Self::spec_ids()[3] == extension_id);
                    }
                }
            }
            return Ok(return_ty_to::<D>(call_index));
        }
        if extension_id == E::extension_id() {
            proof {
                assert(is_first(Self::spec_ids(), extension_id, 4));
                assert forall|k: int| is_first(Self::spec_ids(), extension_id, k) implies k == 4 by {
                    if k < 4 {
                        assert(Self::spec_ids()[k] != extension_id);
                    } else if k > 4 {
                        assert(Self::spec_ids()[4] == extension_id);
                    }
                }
            }
            return Ok(return_ty_to::<E>(call_index));
        }
        if extension_id == F::extension_id() {
            proof {
                assert(is_first(Self::spec_ids(), extension_id, 5));
                assert forall|k: int| is_first(Self::spec_ids(), extension_id, k) implies k == 5 by {
                    if k < 5 {
                        assert(Self::spec_ids()[k] != extension_id);
                    } else if k > 5 {
                        assert(Self::spec_ids()[5] == extension_id);
                    }
                }
            }
            return Ok(return_ty_to::<F>(call_index));
        }
        if extension_id == G::extension_id() {
            proof {
                assert(is_first(Self::spec_ids(), extension_id, 6));
                assert forall|k: int| is_first(Self::spec_ids(), extension_id, k) implies k == 6 by {
                    if k < 6 {
                        assert(Self::spec_ids()[k] != extension_id);
                    } else if k > 6 {
                        assert(Self::spec_ids()[6] == extension_id);
                    }
                }
            }
            return Ok(return_ty_to::<G>(call_index));
        }
        if extension_id == H::extension_id() {
            proof {
                assert(is_first(Self::spec_ids(), extension_id, 7));
                assert forall|k: int| is_first(Self::spec_ids(), extension_id, k) implies k == 7 by {
                    if k < 7 {
                        assert(Self::spec_ids()[k] != extension_id);
                    } else if k > 7 {
                        assert(Self::spec_ids()[7] == extension_id);
                    }
                }
            }
            return Ok(return_ty_to::<H>(call_index));
        }
        if extension_id == I::extension_id() {
            proof {
                assert(is_first(Self::spec_ids(), extension_id, 8));
                assert forall|k: int| is_first(Self::spec_ids(), extension_id, k) implies k == 8 by {
                    if k < 8 {
                        assert(Self::spec_ids()[k] != extension_id);
                    } else if k > 8 {
                        assert(Self::spec_ids()[8] == extension_id);
                    }
                }
            }
            return Ok(return_ty_to::<I>(call_index));
        }
        proof {
            assert(Self::spec_ids()[0] != extension_id);
            assert(Self::spec_ids()[1] != extension_id);
            assert(Self::spec_ids()[2] != extension_id);
            assert(Self::spec_ids()[3] != extension_id);
            assert(Self::spec_ids()[4] != extension_id);
            assert(Self::spec_ids()[5] != extension_id);
            assert(Self::spec_ids()[6] != extension_id);
            assert(Self::spec_ids()[7] != extension_id);
            assert(Self::spec_ids()[8] != extension_id);
            assert forall|k: int| !is_first(Self::spec_ids(), extension_id, k) by {}
        }
        Err(ExtensionError::UnsupportedExtension)
    }

    fn method_count(extension_id: ExtensionIdTy) -> (r: Option<usize>) {
        if extension_id == A::extension_id() {
            proof {
                assert(is_first(Self::spec_ids(), extension_id, 0));
                assert forall|k: int| is_first(Self::spec_ids(), extension_id, k) implies k == 0 by {
                    if k < 0 {
                        assert(Self::spec_ids()[k] != extension_id);
                    } else if k > 0 {
                        assert(Self::spec_ids()[0] == extension_id);
                    }
                }
            }
            return Some(method_count_of::<A>());
        }
        if extension_id == B::extension_id() {
            proof {
                assert(is_first(Self::spec_ids(), extension_id, 1));
                assert forall|k: int| is_first(Self::spec_ids(), extension_id, k) implies k == 1 by {
                    if k < 1 {
                        assert(Self::spec_ids()[k] != extension_id);
                    } else if k > 1 {
                        assert(Self::spec_ids()[1] == extension_id);
                    }
                }
            }
            return Some(method_count_of::<B>());
        }
        if extension_id == C::extension_id() {
            proof {
                assert(is_first(Self::spec_ids(), extension_id, 2));
                assert forall|k: int| is_first(Self::spec_ids(), extension_id, k) implies k == 2 by {
                    if k < 2 {
                        assert(Self::spec_ids()[k] != extension_id);
                    } else if k > 2 {
                        assert(Self::spec_ids()[2] == extension_id);
                    }
                }
            }
            return Some(method_count_of::<C>());
        }
        if extension_id == D::extension_id() {
            proof {
                assert(is_first(Self::spec_ids(), extension_id, 3));
                assert forall|k: int| is_first(Self::spec_ids(), extension_id, k) implies k == 3 by {
                    if k < 3 {
                        assert(Self::spec_ids()[k] != extension_id);
                    } else if k > 3 {
                        assert(Self::spec_ids()[3] == extension_id);
                    }
                }
            }
            return Some(method_count_of::<D>());
        }
        if extension_id == E::extension_id() {
            proof {
                assert(is_first(Self::spec_ids(), extension_id, 4));
                assert forall|k: int| is_first(Self::spec_ids(), extension_id, k) implies k == 4 by {
                    if k < 4 {
                        assert(Self::spec_ids()[k] != extension_id);
                    } else if k > 4 {
                        assert(Self::spec_ids()[4] == extension_id);
                    }
                }
            }
            return Some(method_count_of::<E>());
        }
        if extension_id == F::extension_id() {
            proof {
                assert(is_first(Self::spec_ids(), extension_id, 5));
                assert forall|k: int| is_first(Self::spec_ids(), extension_id, k) implies k == 5 by {
                    if k < 5 {
                        assert(Self::spec_ids()[k] != extension_id);
                    } else if k > 5 {
                        assert(Self::spec_ids()[5] == extension_id);
                    }
                }
            }
            return Some(method_count_of::<F>());
        }
        if extension_id == G::extension_id() {
            proof {
                assert(is_first(Self::spec_ids(), extension_id, 6));
                assert forall|k: int| is_first(Self::spec_ids(), extension_id, k) implies k == 6 by {
                    if k < 6 {
                        assert(Self::spec_ids()[k] != extension_id);
                    } else if k > 6 {
                        assert(Self::spec_ids()[6] == extension_id);
                    }
                }
            }
            return Some(method_count_of::<G>());
        }
        if extension_id == H::extension_id() {
            proof {
                assert(is_first(Self::spec_ids(), extension_id, 7));
                assert forall|k: int| is_first(Self::spec_ids(), extension_id, k) implies k == 7 by {
                    if k < 7 {
                        assert(Self::spec_ids()[k] != extension_id);
                    } else if k > 7 {
                        assert(Self::spec_ids()[7] == extension_id);
                    }
                }
            }
            return Some(method_count_of::<H>());
        }
        if extension_id == I::extension_id() {
            proof {
                assert(is_first(Self::spec_ids(), extension_id, 8));
                assert forall|k: int| is_first(Self::spec_ids(), extension_id, k) implies k == 8 by {
                    if k < 8 {
                        assert(Self::spec_ids()[k] != extension_id);
                    } else if k > 8 {
                        assert(Self::spec_ids()[8] == extension_id);
                    }
                }
            }
            return Some(method_count_of::<I>());
        }
        proof {
            assert(Self::spec_ids()[0] != extension_id);
            assert(Self::spec_ids()[1] != extension_id);
            assert(Self::spec_ids()[2] != extension_id);
            assert(Self::spec_ids()[3] != extension_id);
            assert(Self::spec_ids()[4] != extension_id);
            assert(Self::spec_ids()[5] != extension_id);
            assert(Self::spec_ids()[6] != extension_id);
            assert(Self::spec_ids()[7] != extension_id);
            assert(Self::spec_ids()[8] != extension_id);
            assert forall|k: int| !is_first(Self::spec_ids(), extension_id, k) by {}
        }
        None
    }
}

/// Law: in a host's tuple of nine extensions, the extension at each position
/// is the tuple's member at that position: its identifier and its metadata
/// are that member's, and so are the calls it reads from given bytes and
/// what they answer; no other position holds an extension.
pub proof fn law_tuple_members_nine<A: CallData, B: CallData, C: CallData, D: CallData, E: CallData, F: CallData, G: CallData, H: CallData, I: CallData>(k: int, data: Seq<u8>, out: Seq<u8>)
    ensures
        <(A, B, C, D, E, F, G, H, I) as CallDataTuple>::spec_ids() == seq![A::spec_extension_id(), B::spec_extension_id(), C::spec_extension_id(), D::spec_extension_id(), E::spec_extension_id(), F::spec_extension_id(), G::spec_extension_id(), H::spec_extension_id(), I::spec_extension_id()],
        <(A, B, C, D, E, F, G, H, I) as CallDataTuple>::spec_metadata() == seq![A::spec_call_metadata(), B::spec_call_metadata(), C::spec_call_metadata(), D::spec_call_metadata(), E::spec_call_metadata(), F::spec_call_metadata(), G::spec_call_metadata(), H::spec_call_metadata(), I::spec_call_metadata()],
        <(A, B, C, D, E, F, G, H, I) as CallDataTuple>::spec_decodes(0, data) == call_decodes::<A>(data),
        <(A, B, C, D, E, F, G, H, I) as CallDataTuple>::spec_answers(0, data, out) == call_answers::<A>(data, out),
        <(A, B, C, D, E, F, G, H, I) as CallDataTuple>::spec_decodes(1, data) == call_decodes::<B>(data),
        <(A, B, C, D, E, F, G, H, I) as CallDataTuple>::spec_answers(1, data, out) == call_answers::<B>(data, out),
        <(A, B, C, D, E, F, G, H, I) as CallDataTuple>::spec_decodes(2, data) == call_decodes::<C>(data),
        <(A, B, C, D, E, F, G, H, I) as CallDataTuple>::spec_answers(2, data, out) == call_answers::<C>(data, out),
        <(A, B, C, D, E, F, G, H, I) as CallDataTuple>::spec_decodes(3, data) == call_decodes::<D>(data),
        <(A, B, C, D, E, F, G, H, I) as CallDataTuple>::spec_answers(3, data, out) == call_answers::<D>(data, out),
        <(A, B, C, D, E, F, G, H, I) as CallDataTuple>::spec_decodes(4, data) == call_decodes::<E>(data),
        <(A, B, C, D, E, F, G, H, I) as CallDataTuple>::spec_answers(4, data, out) == call_answers::<E>(data, out),
        <(A, B, C, D, E, F, G, H, I) as CallDataTuple>::spec_decodes(5, data) == call_decodes::<F>(data),
        <(A, B, C, D, E, F, G, H, I) as CallDataTuple>::spec_answers(5, data, out) == call_answers::<F>(data, out),
        <(A, B, C, D, E, F, G, H, I) as CallDataTuple>::spec_decodes(6, data) == call_decodes::<G>(data),
        <(A, B, C, D, E, F, G, H, I) as CallDataTuple>::spec_answers(6, data, out) == call_answers::<G>(data, out),
        <(A, B, C, D, E, F, G, H, I) as CallDataTuple>::spec_decodes(7, data) == call_decodes::<H>(data),
        <(A, B, C, D, E, F, G, H, I) as CallDataTuple>::spec_answers(7, data, out) == call_answers::<H>(data, out),
        <(A, B, C, D, E, F, G, H, I) as CallDataTuple>::spec_decodes(8, data) == call_decodes::<I>(data),
        <(A, B, C, D, E, F, G, H, I) as CallDataTuple>::spec_answers(8, data, out) == call_answers::<I>(data, out),
        !(0 <= k < 9) ==> !<(A, B, C, D, E, F, G, H, I) as CallDataTuple>::spec_decodes(k, data) && !<(A, B, C, D, E, F, G, H, I) as CallDataTuple>::spec_answers(k, data, out),
{
}

impl<A: CallData, B: CallData, C: CallData, D: CallData, E: CallData, F: CallData, G: CallData, H: CallData, I: CallData, J: CallData> CallDataTuple for (A, B, C, D, E, F, G, H, I, J) {
    open spec fn spec_ids() -> Seq<ExtensionIdTy> {
        seq![A::spec_extension_id(), B::spec_extension_id(), C::spec_extension_id(), D::spec_extension_id(), E::spec_extension_id(), F::spec_extension_id(), G::spec_extension_id(), H::spec_extension_id(), I::spec_extension_id(), J::spec_extension_id()]
    }

    open spec fn spec_metadata() -> Seq<ExtensionView> {
        seq![A::spec_call_metadata(), B::spec_call_metadata(), C::spec_call_metadata(), D::spec_call_metadata(), E::spec_call_metadata(), F::spec_call_metadata(), G::spec_call_metadata(), H::spec_call_metadata(), I::spec_call_metadata(), J::spec_call_metadata()]
    }

    open spec fn spec_decodes(k: int, data: Seq<u8>) -> bool {
        if k == 0 {
            call_decodes::<A>(data)
        } else if k == 1 {
            call_decodes::<B>(data)
        } else if k == 2 {
            call_decodes::<C>(data)
        } else if k == 3 {
            call_decodes::<D>(data)
        } else if k == 4 {
            call_decodes::<E>(data)
        } else if k == 5 {
            call_decodes::<F>(data)
        } else if k == 6 {
            call_decodes::<G>(data)
        } else if k == 7 {
            call_decodes::<H>(data)
        } else if k == 8 {
            call_decodes::<I>(data)
        } else if k == 9 {
            call_decodes::<J>(data)
        } else {
            false
        }
    }

    open spec fn spec_answers(k: int, data: Seq<u8>, out: Seq<u8>) -> bool {
        if k == 0 {
            call_answers::<A>(data, out)
        } else if k == 1 {
            call_answers::<B>(data, out)
        } else if k == 2 {
            call_answers::<C>(data, out)
        } else if k == 3 {
            call_answers::<D>(data, out)
        } else if k == 4 {
            call_answers::<E>(data, out)
        } else if k == 5 {
            call_answers::<F>(data, out)
        } else if k == 6 {
            call_answers::<G>(data, out)
        } else if k == 7 {
            call_answers::<H>(data, out)
        } else if k == 8 {
            call_answers::<I>(data, out)
        } else if k == 9 {
            call_answers::<J>(data, out)
        } else {
            false
        }
    }

    #[allow(unused_variables)]
    fn dispatch(extension_id: ExtensionIdTy, data: &[u8]) -> (r: Result<Vec<u8>, ExtensionError>) {
        if extension_id == A::extension_id() {
            let r = dispatch_to::<A>(data);
            proof {
                assert(is_first(Self::spec_ids(), extension_id, 0));
                assert forall|k: int| is_first(Self::spec_ids(), extension_id, k) implies k == 0 by {
                    if k < 0 {
                        assert(Self::spec_ids()[k] != extension_id);
                    } else if k > 0 {
                        assert(Self::spec_ids()[0] == extension_id);
                    }
                }
            }
            return r;
        }
        if extension_id == B::extension_id() {
            let r = dispatch_to::<B>(data);
            proof {
                assert(is_first(Self::spec_ids(), extension_id, 1));
                assert forall|k: int| is_first(Self::spec_ids(), extension_id, k) implies k == 1 by {
                    if k < 1 {
                        assert(Self::spec_ids()[k] != extension_id);
                    } else if k > 1 {
                        assert(Self::spec_ids()[1] == extension_id);
                    }
                }
            }
            return r;
        }
        if extension_id == C::extension_id() {
            let r = dispatch_to::<C>(data);
            proof {
                assert(is_first(Self::spec_ids(), extension_id, 2));
                assert forall|k: int| is_first(Self::spec_ids(), extension_id, k) implies k == 2 by {
                    if k < 2 {
                        assert(Self::spec_ids()[k] != extension_id);
                    } else if k > 2 {
                        assert(Self::spec_ids()[2] == extension_id);
                    }
                }
            }
            return r;
        }
        if extension_id == D::extension_id() {
            let r = dispatch_to::<D>(data);
            proof {
                assert(is_first(Self::spec_ids(), extension_id, 3));
                assert forall|k: int| is_first(Self::spec_ids(), extension_id, k) implies k == 3 by {
                    if k < 3 {
                        assert(Self::spec_ids()[k] != extension_id);
                    } else if k > 3 {
                        assert(Self::spec_ids()[3] == extension_id);
                    }
                }
            }
            return r;
        }
        if extension_id == E::extension_id() {
            let r = dispatch_to::<E>(data);
            proof {
                assert(is_first(Self::spec_ids(), extension_id, 4));
                assert forall|k: int| is_first(Self::spec_ids(), extension_id, k) implies k == 4 by {
                    if k < 4 {
                        assert(Self::spec_ids()[k] != extension_id);
                    } else if k > 4 {
                        assert(Self::spec_ids()[4] == extension_id);
                    }
                }
            }
            return r;
        }
        if extension_id == F::extension_id() {
            let r = dispatch_to::<F>(data);
            proof {
                assert(is_first(Self::spec_ids(), extension_id, 5));
                assert forall|k: int| is_first(Self::spec_ids(), extension_id, k) implies k == 5 by {
                    if k < 5 {
                        assert(Self::spec_ids()[k] != extension_id);
                    } else if k > 5 {
                        assert(Self::spec_ids()[5] == extension_id);
                    }
                }
            }
            return r;
        }
        if extension_id == G::extension_id() {
            let r = dispatch_to::<G>(data);
            proof {
                assert(is_first(Self::spec_ids(), extension_id, 6));
                assert forall|k: int| is_first(Self::spec_ids(), extension_id, k) implies k == 6 by {
                    if k < 6 {
                        assert(Self::spec_ids()[k] != extension_id);
                    } else if k > 6 {
                        assert(Self::spec_ids()[6] == extension_id);
                    }
                }
            }
            return r;
        }
        if extension_id == H::extension_id() {
            let r = dispatch_to::<H>(data);
            proof {
                assert(is_first(Self::spec_ids(), extension_id, 7));
                assert forall|k: int| is_first(Self::spec_ids(), extension_id, k) implies k == 7 by {
                    if k < 7 {
                        assert(Self::spec_ids()[k] != extension_id);
                    } else if k > 7 {
                        assert(Self::spec_ids()[7] == extension_id);
                    }
                }
            }
            return r;
        }
        if extension_id == I::extension_id() {
            let r = dispatch_to::<I>(data);
            proof {
                assert(is_first(Self::spec_ids(), extension_id, 8));
                assert forall|k: int| is_first(Self::spec_ids(), extension_id, k) implies k == 8 by {
                    if k < 8 {
                        assert(Self::spec_ids()[k] != extension_id);
                    } else if k > 8 {
                        assert(Self::spec_ids()[8] == extension_id);
                    }
                }
            }
            return r;
        }
        if extension_id == J::extension_id() {
            let r = dispatch_to::<J>(data);
            proof {
                assert(is_first(Self::spec_ids(), extension_id, 9));
                assert forall|k: int| is_first(Self::spec_ids(), extension_id, k) implies k == 9 by {
                    if k < 9 {
                        assert(Self::spec_ids()[k] != extension_id);
                    } else if k > 9 {
                        assert(Self::spec_ids()[9] == extension_id);
                    }
                }
            }
            return r;
        }
        proof {
            assert(Self::spec_ids()[0] != extension_id);
            assert(Self::spec_ids()[1] != extension_id);
            assert(Self::spec_ids()[2] != extension_id);
            assert(Self::spec_ids()[3] != extension_id);
            assert(Self::spec_ids()[4] != extension_id);
            assert(Self::spec_ids()[5] != extension_id);
            assert(Self::spec_ids()[6] != extension_id);
            assert(Self::spec_ids()[7] != extension_id);
            assert(Self::spec_ids()[8] != extension_id);
            assert(Self::spec_ids()[9] != extension_id);
            assert(!handles(Self::spec_ids(), extension_id)) by {
                assert forall|k: int| 0 <= k < Self::spec_ids().len() implies Self::spec_ids()[k] != extension_id by {}
            }
            assert forall|k: int| !is_first(Self::spec_ids(), extension_id, k) by {}
        }
        Err(ExtensionError::UnsupportedExtension)
    }

    #[allow(unused_variables)]
    fn return_ty(extension_id: ExtensionIdTy, call_index: u32) -> (r: Result<Vec<u8>, ExtensionError>) {
        if extension_id == A::extension_id() {
            proof {
                assert(is_first(Self::spec_ids(), extension_id, 0));
                assert forall|k: int| is_first(Self::spec_ids(), extension_id, k) implies k == 0 by {
                    if k < 0 {
                        assert(Self::spec_ids()[k] != extension_id);
                    } else if k > 0 {
                        assert(Self::spec_ids()[0] == extension_id);
                    }
                }
            }
            return Ok(return_ty_to::<A>(call_index));
        }
        if extension_id == B::extension_id() {
            proof {
                assert(is_first(Self::spec_ids(), extension_id, 1));
                assert forall|k: int| is_first(Self::spec_ids(), extension_id, k) implies k == 1 by {
                    if k < 1 {
                        assert(Self::spec_ids()[k] != extension_id);
                    } else if k > 1 {
                        assert(Self::spec_ids()[1] == extension_id);
                    }
                }
            }
            return Ok(return_ty_to::<B>(call_index));
        }
        if extension_id == C::extension_id() {
            proof {
                assert(is_first(Self::spec_ids(), extension_id, 2));
                assert forall|k: int| is_first(Self::spec_ids(), extension_id, k) implies k == 2 by {
                    if k < 2 {
                        assert(Self::spec_ids()[k] != extension_id);
                    } else if k > 2 {
                        assert(Self::spec_ids()[2] == extension_id);
                    }
                }
            }
            return Ok(return_ty_to::<C>(call_index));
        }
        if extension_id == D::extension_id() {
            proof {
                assert(is_first(Self::spec_ids(), extension_id, 3));
                assert forall|k: int| is_first(Self::spec_ids(), extension_id, k) implies k == 3 by {
                    if k < 3 {
                        assert(Self::spec_ids()[k] != extension_id);
                    } else if k > 3 {
                        assert(Self::spec_ids()[3] == extension_id);
                    }
                }
            }
            return Ok(return_ty_to::<D>(call_index));
        }
        if extension_id == E::extension_id() {
            proof {
                assert(is_first(Self::spec_ids(), extension_id, 4));
                assert forall|k: int| is_first(Self::spec_ids(), extension_id, k) implies k == 4 by {
                    if k < 4 {
                        assert(Self::spec_ids()[k] != extension_id);
                    } else if k > 4 {
                        assert(Self::spec_ids()[4] == extension_id);
                    }
                }
            }
            return Ok(return_ty_to::<E>(call_index));
        }
        if extension_id == F::extension_id() {
            proof {
                assert(is_first(Self::spec_ids(), extension_id, 5));
                assert forall|k: int| is_first(Self::spec_ids(), extension_id, k) implies k == 5 by {
                    if k < 5 {
                        assert(Self::spec_ids()[k] != extension_id);
                    } else if k > 5 {
                        assert(Self::spec_ids()[5] == extension_id);
                    }
                }
            }
            return Ok(return_ty_to::<F>(call_index));
        }
        if extension_id == G::extension_id() {
            proof {
                assert(is_first(Self::spec_ids(), extension_id, 6));
                assert forall|k: int| is_first(Self::spec_ids(), extension_id, k) implies k == 6 by {
                    if k < 6 {
                        assert(Self::spec_ids()[k] != extension_id);
                    } else if k > 6 {
                        assert(Self::spec_ids()[6] == extension_id);
                    }
                }
            }
            return Ok(return_ty_to::<G>(call_index));
        }
        if extension_id == H::extension_id() {
            proof {
                assert(is_first(Self::spec_ids(), extension_id, 7));
                assert forall|k: int| is_first(Self::spec_ids(), extension_id, k) implies k == 7 by {
                    if k < 7 {
                        assert(Self::spec_ids()[k] != extension_id);
                    } else if k > 7 {
                        assert(Self::spec_ids()[7] == extension_id);
                    }
                }
            }
            return Ok(return_ty_to::<H>(call_index));
        }
        if extension_id == I::extension_id() {
            proof {
                assert(is_first(Self::spec_ids(), extension_id, 8));
                assert forall|k: int| is_first(Self::spec_ids(), extension_id, k) implies k == 8 by {
                    if k < 8 {
                        assert(Self::spec_ids()[k] != extension_id);
                    } else if k > 8 {
                        assert(Self::spec_ids()[8] == extension_id);
                    }
                }
            }
            return Ok(return_ty_to::<I>(call_index));
        }
        if extension_id == J::extension_id() {
            proof {
                assert(is_first(Self::spec_ids(), extension_id, 9));
                assert forall|k: int| is_first(Self::spec_ids(), extension_id, k) implies k == 9 by {
                    if k < 9 {
                        assert(Self::spec_ids()[k] != extension_id);
                    } else if k > 9 {
                        assert(Self::spec_ids()[9] == extension_id);
                    }
                }
            }
            return Ok(return_ty_to::<J>(call_index));
        }
        proof {
            assert(Self::spec_ids()[0] != extension_id);
            assert(Self::spec_ids()[1] != extension_id);
            assert(Self::spec_ids()[2] != extension_id);
            assert(Self::spec_ids()[3] != extension_id);
            assert(Self::spec_ids()[4] != extension_id);
            assert(Self::spec_ids()[5] != extension_id);
            assert(Self::spec_ids()[6] != extension_id);
            assert(Self::spec_ids()[7] != extension_id);
            assert(Self::spec_ids()[8] != extension_id);
            assert(Self::spec_ids()[9] != extension_id);
            assert forall|k: int| !is_first(Self::spec_ids(), extension_id, k) by {}
        }
        Err(ExtensionError::UnsupportedExtension)
    }

    fn method_count(extension_id: ExtensionIdTy) -> (r: Option<usize>) {
        if extension_id == A::extension_id() {
            proof {
                assert(is_first(Self::spec_ids(), extension_id, 0));
                assert forall|k: int| is_first(Self::spec_ids(), extension_id, k) implies k == 0 by {
                    if k < 0 {
                        assert(Self::spec_ids()[k] != extension_id);
                    } else if k > 0 {
                        assert(Self::spec_ids()[0] == extension_id);
                    }
                }
            }
            return Some(method_count_of::<A>());
        }
        if extension_id == B::extension_id() {
            proof {
                assert(is_first(Self::spec_ids(), extension_id, 1));
                assert forall|k: int| is_first(Self::spec_ids(), extension_id, k) implies k == 1 by {
                    if k < 1 {
                        assert(Self::spec_ids()[k] != extension_id);
                    } else if k > 1 {
                        assert(Self::spec_ids()[1] == extension_id);
                    }
                }
            }
            return Some(method_count_of::<B>());
        }
        if extension_id == C::extension_id() {
            proof {
                assert(is_first(Self::spec_ids(), extension_id, 2));
                assert forall|k: int| is_first(Self::spec_ids(), extension_id, k) implies k == 2 by {
                    if k < 2 {
                        assert(Self::spec_ids()[k] != extension_id);
                    } else if k > 2 {
                        assert(Self::spec_ids()[2] == extension_id);
                    }
                }
            }
            return Some(method_count_of::<C>());
        }
        if extension_id == D::extension_id() {
            proof {
                assert(is_first(Self::spec_ids(), extension_id, 3));
                assert forall|k: int| is_first(Self::spec_ids(), extension_id, k) implies k == 3 by {
                    if k < 3 {
                        assert(Self::spec_ids()[k] != extension_id);
                    } else if k > 3 {
                        assert(Self::spec_ids()[3] == extension_id);
                    }
                }
            }
            return Some(method_count_of::<D>());
        }
        if extension_id == E::extension_id() {
            proof {
                assert(is_first(Self::spec_ids(), extension_id, 4));
                assert forall|k: int| is_first(Self::spec_ids(), extension_id, k) implies k == 4 by {
                    if k < 4 {
                        assert(Self::spec_ids()[k] != extension_id);
                    } else if k > 4 {
                        assert(Self::spec_ids()[4] == extension_id);
                    }
                }
            }
            return Some(method_count_of::<E>());
        }
        if extension_id == F::extension_id() {
            proof {
                assert(is_first(Self::spec_ids(), extension_id, 5));
                assert forall|k: int| is_first(Self::spec_ids(), extension_id, k) implies k == 5 by {
                    if k < 5 {
                        assert(Self::spec_ids()[k] != extension_id);
                    } else if k > 5 {
                        assert(Self::spec_ids()[5] == extension_id);
                    }
                }
            }
            return Some(method_count_of::<F>());
        }
        if extension_id == G::extension_id() {
            proof {
                assert(is_first(Self::spec_ids(), extension_id, 6));
                assert forall|k: int| is_first(Self::spec_ids(), extension_id, k) implies k == 6 by {
                    if k < 6 {
                        assert(Self::spec_ids()[k] != extension_id);
                    } else if k > 6 {
                        assert(Self::spec_ids()[6] == extension_id);
                    }
                }
            }
            return Some(method_count_of::<G>());
        }
        if extension_id == H::extension_id() {
            proof {
                assert(is_first(Self::spec_ids(), extension_id, 7));
                assert forall|k: int| is_first(Self::spec_ids(), extension_id, k) implies k == 7 by {
                    if k < 7 {
                        assert(Self::spec_ids()[k] != extension_id);
                    } else if k > 7 {
                        assert(Self::spec_ids()[7] == extension_id);
                    }
                }
            }
            return Some(method_count_of::<H>());
        }
        if extension_id == I::extension_id() {
            proof {
                assert(is_first(Self::spec_ids(), extension_id, 8));
                assert forall|k: int| is_first(Self::spec_ids(), extension_id, k) implies k == 8 by {
                    if k < 8 {
                        assert(Self::spec_ids()[k] != extension_id);
                    } else if k > 8 {
                        assert(Self::spec_ids()[8] == extension_id);
                    }
                }
            }
            return Some(method_count_of::<I>());
        }
        if extension_id == J::extension_id() {
            proof {
                assert(is_first(Self::spec_ids(), extension_id, 9));
                assert forall|k: int| is_first(Self::spec_ids(), extension_id, k) implies k == 9 by {
                    if k < 9 {
                        assert(Self::spec_ids()[k] != extension_id);
                    } else if k > 9 {
                        assert(Self::spec_ids()[9] == extension_id);
                    }
                }
            }
            return Some(method_count_of::<J>());
        }
        proof {
            assert(Self::spec_ids()[0] != extension_id);
            assert(Self::spec_ids()[1] != extension_id);
            assert(Self::spec_ids()[2] != extension_id);
            assert(Self::spec_ids()[3] != extension_id);
            assert(Self::spec_ids()[4] != extension_id);
            assert(Self::spec_ids()[5] != extension_id);
            assert(Self::spec_ids()[6] != extension_id);
            assert(Self::spec_ids()[7] != extension_id);
            assert(Self::spec_ids()[8] != extension_id);
            assert(Self::spec_ids()[9] != extension_id);
            assert forall|k: int| !is_first(Self::spec_ids(), extension_id, k) by {}
        }
        None
    }
}

/// Law: in a host's tuple of ten extensions, the extension at each position
/// is the tuple's member at that position: its identifier and its metadata
/// are that member's, and so are the calls it reads from given bytes and
/// what they answer; no other position holds an extension.
pub proof fn law_tuple_members_ten<A: CallData, B: CallData, C: CallData, D: CallData, E: CallData, F: CallData, G: CallData, H: CallData, I: CallData, J: CallData>(k: int, data: Seq<u8>, out: Seq<u8>)
    ensures
        <(A, B, C, D, E, F, G, H, I, J) as CallDataTuple>::spec_ids() == seq![A::spec_extension_id(), B::spec_extension_id(), C::spec_extension_id(), D::spec_extension_id(), E::spec_extension_id(), F::spec_extension_id(), G::spec_extension_id(), H::spec_extension_id(), I::spec_extension_id(), J::spec_extension_id()],
        <(A, B, C, D, E, F, G, H, I, J) as CallDataTuple>::spec_metadata() == seq![A::spec_call_metadata(), B::spec_call_metadata(), C::spec_call_metadata(), D::spec_call_metadata(), E::spec_call_metadata(), F::spec_call_metadata(), G::spec_call_metadata(), H::spec_call_metadata(), I::spec_call_metadata(), J::spec_call_metadata()],
        <(A, B, C, D, E, F, G, H, I, J) as CallDataTuple>::spec_decodes(0, data) == call_decodes::<A>(data),
        <(A, B, C, D, E, F, G, H, I, J) as CallDataTuple>::spec_answers(0, data, out) == call_answers::<A>(data, out),
        <(A, B, C, D, E, F, G, H, I, J) as CallDataTuple>::spec_decodes(1, data) == call_decodes::<B>(data),
        <(A, B, C, D, E, F, G, H, I, J) as CallDataTuple>::spec_answers(1, data, out) == call_answers::<B>(data, out),
        <(A, B, C, D, E, F, G, H, I, J) as CallDataTuple>::spec_decodes(2, data) == call_decodes::<C>(data),
        <(A, B, C, D, E, F, G, H, I, J) as CallDataTuple>::spec_answers(2, data, out) == call_answers::<C>(data, out),
        <(A, B, C, D, E, F, G, H, I, J) as CallDataTuple>::spec_decodes(3, data) == call_decodes::<D>(data),
        <(A, B, C, D, E, F, G, H, I, J) as CallDataTuple>::spec_answers(3, data, out) == call_answers::<D>(data, out),
        <(A, B, C, D, E, F, G, H, I, J) as CallDataTuple>::spec_decodes(4, data) == call_decodes::<E>(data),
        <(A, B, C, D, E, F, G, H, I, J) as CallDataTuple>::spec_answers(4, data, out) == call_answers::<E>(data, out),
        <(A, B, C, D, E, F, G, H, I, J) as CallDataTuple>::spec_decodes(5, data) == call_decodes::<F>(data),
        <(A, B, C, D, E, F, G, H, I, J) as CallDataTuple>::spec_answers(5, data, out) == call_answers::<F>(data, out),
        <(A, B, C, D, E, F, G, H, I, J) as CallDataTuple>::spec_decodes(6, data) == call_decodes::<G>(data),
        <(A, B, C, D, E, F, G, H, I, J) as CallDataTuple>::spec_answers(6, data, out) == call_answers::<G>(data, out),
        <(A, B, C, D, E, F, G, H, I, J) as CallDataTuple>::spec_decodes(7, data) == call_decodes::<H>(data),
        <(A, B, C, D, E, F, G, H, I, J) as CallDataTuple>::spec_answers(7, data, out) == call_answers::<H>(data, out),
        <(A, B, C, D, E, F, G, H, I, J) as CallDataTuple>::spec_decodes(8, data) == call_decodes::<I>(data),
        <(A, B, C, D, E, F, G, H, I, J) as CallDataTuple>::spec_answers(8, data, out) == call_answers::<I>(data, out),
        <(A, B, C, D, E, F, G, H, I, J) as CallDataTuple>::spec_decodes(9, data) == call_decodes::<J>(data),
        <(A, B, C, D, E, F, G, H, I, J) as CallDataTuple>::spec_answers(9, data, out) == call_answers::<J>(data, out),
        !(0 <= k < 10) ==> !<(A, B, C, D, E, F, G, H, I, J) as CallDataTuple>::spec_decodes(k, data) && !<(A, B, C, D, E, F, G, H, I, J) as CallDataTuple>::spec_answers(k, data, out),
{
}

impl<A: CallData, B: CallData, C: CallData, D: CallData, E: CallData, F: CallData, G: CallData, H: CallData, I: CallData, J: CallData, K: CallData> CallDataTuple for (A, B, C, D, E, F, G, H, I, J, K) {
    open spec fn spec_ids() -> Seq<ExtensionIdTy> {
        seq![A::spec_extension_id(), B::spec_extension_id(), C::spec_extension_id(), D::spec_extension_id(), E::spec_extension_id(), F::spec_extension_id(), G::spec_extension_id(), H::spec_extension_id(), I::spec_extension_id(), J::spec_extension_id(), K::spec_extension_id()]
    }

    open spec fn spec_metadata() -> Seq<ExtensionView> {
        seq![A::spec_call_metadata(), B::spec_call_metadata(), C::spec_call_metadata(), D::spec_call_metadata(), E::spec_call_metadata(), F::spec_call_metadata(), G::spec_call_metadata(), H::spec_call_metadata(), I::spec_call_metadata(), J::spec_call_metadata(), K::spec_call_metadata()]
    }

    open spec fn spec_decodes(k: int, data: Seq<u8>) -> bool {
        if k == 0 {
            call_decodes::<A>(data)
        } else if k == 1 {
            call_decodes::<B>(data)
        } else if k == 2 {
            call_decodes::<C>(data)
        } else if k == 3 {
            call_decodes::<D>(data)
        } else if k == 4 {
            call_decodes::<E>(data)
        } else if k == 5 {
            call_decodes::<F>(data)
        } else if k == 6 {
            call_decodes::<G>(data)
        } else if k == 7 {
            call_decodes::<H>(data)
        } else if k == 8 {
            call_decodes::<I>(data)
        } else if k == 9 {
            call_decodes::<J>(data)
        } else if k == 10 {
            call_decodes::<K>(data)
        } else {
            false
        }
    }

    open spec fn spec_answers(k: int, data: Seq<u8>, out: Seq<u8>) -> bool {
        if k == 0 {
            call_answers::<A>(data, out)
        } else if k == 1 {
            call_answers::<B>(data, out)
        } else if k == 2 {
            call_answers::<C>(data, out)
        } else if k == 3 {
            call_answers::<D>(data, out)
        } else if k == 4 {
            call_answers::<E>(data, out)
        } else if k == 5 {
            call_answers::<F>(data, out)
        } else if k == 6 {
            call_answers::<G>(data, out)
        } else if k == 7 {
            call_answers::<H>(data, out)
        } else if k == 8 {
            call_answers::<I>(data, out)
        } else if k == 9 {
            call_answers::<J>(data, out)
        } else if k == 10 {
            call_answers::<K>(data, out)
        } else {
            false
        }
    }

    #[allow(unused_variables)]
    fn dispatch(extension_id: ExtensionIdTy, data: &[u8]) -> (r: Result<Vec<u8>, ExtensionError>) {
        if extension_id == A::extension_id() {
            let r = dispatch_to::<A>(data);
            proof {
                assert(is_first(Self::spec_ids(), extension_id, 0));
                assert forall|k: int| is_first(Self::spec_ids(), extension_id, k) implies k == 0 by {
                    if k < 0 {
                        assert(Self::spec_ids()[k] != extension_id);
                    } else if k > 0 {
                        assert(Self::spec_ids()[0] == extension_id);
                    }
                }
            }
            return r;
        }
        if extension_id == B::extension_id() {
            let r = dispatch_to::<B>(data);
            proof {
                assert(is_first(Self::spec_ids(), extension_id, 1));
                assert forall|k: int| is_first(Self::spec_ids(), extension_id, k) implies k == 1 by {
                    if k < 1 {
                        assert(Self::spec_ids()[k] != extension_id);
                    } else if k > 1 {
                        assert(Self::spec_ids()[1] == extension_id);
                    }
                }
            }
            return r;
        }
        if extension_id == C::extension_id() {
            let r = dispatch_to::<C>(data);
            proof {
                assert(is_first(Self::spec_ids(), extension_id, 2));
                assert forall|k: int| is_first(Self::spec_ids(), extension_id, k) implies k == 2 by {
                    if k < 2 {
                        assert(Self::spec_ids()[k] != extension_id);
                    } else if k > 2 {
                        assert(Self::spec_ids()[2] == extension_id);
                    }
                }
            }
            return r;
        }
        if extension_id == D::extension_id() {
            let r = dispatch_to::<D>(data);
            proof {
                assert(is_first(Self::spec_ids(), extension_id, 3));
                assert forall|k: int| is_first(Self::spec_ids(), extension_id, k) implies k == 3 by {
                    if k < 3 {
                        assert(Self::spec_ids()[k] != extension_id);
                    } else if k > 3 {
                        assert(Self::spec_ids()[3] == extension_id);
                    }
                }
            }
            return r;
        }
        if extension_id == E::extension_id() {
            let r = dispatch_to::<E>(data);
            proof {
                assert(is_first(Self::spec_ids(), extension_id, 4));
                assert forall|k: int| is_first(Self::spec_ids(), extension_id, k) implies k == 4 by {
                    if k < 4 {
                        assert(Self::spec_ids()[k] != extension_id);
                    } else if k > 4 {
                        assert(Self::spec_ids()[4] == extension_id);
                    }
                }
            }
            return r;
        }
        if extension_id == F::extension_id() {
            let r = dispatch_to::<F>(data);
            proof {
                assert(is_first(Self::spec_ids(), extension_id, 5));
                assert forall|k: int| is_first(Self::spec_ids(), extension_id, k) implies k == 5 by {
                    if k < 5 {
                        assert(Self::spec_ids()[k] != extension_id);
                    } else if k > 5 {
                        assert(Self::spec_ids()[5] == extension_id);
                    }
                }
            }
            return r;
        }
        if extension_id == G::extension_id() {
            let r = dispatch_to::<G>(data);
            proof {
                assert(is_first(Self::spec_ids(), extension_id, 6));
                assert forall|k: int| is_first(Self::spec_ids(), extension_id, k) implies k == 6 by {
                    if k < 6 {
                        assert(Self::spec_ids()[k] != extension_id);
                    } else if k > 6 {
                        assert(Self::spec_ids()[6] == extension_id);
                    }
                }
            }
            return r;
        }
        if extension_id == H::extension_id() {
            let r = dispatch_to::<H>(data);
            proof {
                assert(is_first(Self::spec_ids(), extension_id, 7));
                assert forall|k: int| is_first(Self::spec_ids(), extension_id, k) implies k == 7 by {
                    if k < 7 {
                        assert(Self::spec_ids()[k] != extension_id);
                    } else if k > 7 {
                        assert(Self::spec_ids()[7] == extension_id);
                    }
                }
            }
            return r;
        }
        if extension_id == I::extension_id() {
            let r = dispatch_to::<I>(data);
            proof {
                assert(is_first(Self::spec_ids(), extension_id, 8));
                assert forall|k: int| is_first(Self::spec_ids(), extension_id, k) implies k == 8 by {
                    if k < 8 {
                        assert(Self::spec_ids()[k] != extension_id);
                    } else if k > 8 {
                        assert(Self::spec_ids()[8] == extension_id);
                    }
                }
            }
            return r;
        }
        if extension_id == J::extension_id() {
            let r = dispatch_to::<J>(data);
            proof {
                assert(is_first(Self::spec_ids(), extension_id, 9));
                assert forall|k: int| is_first(Self::spec_ids(), extension_id, k) implies k == 9 by {
                    if k < 9 {
                        assert(Self::spec_ids()[k] != extension_id);
                    } else if k > 9 {
                        assert(Self::spec_ids()[9] == extension_id);
                    }
                }
            }
            return r;
        }
        if extension_id == K::extension_id() {
            let r = dispatch_to::<K>(data);
            proof {
                assert(is_first(Self::spec_ids(), extension_id, 10));
                assert forall|k: int| is_first(Self::spec_ids(), extension_id, k) implies k == 10 by {
                    if k < 10 {
                        assert(Self::spec_ids()[k] != extension_id);
                    } else if k > 10 {
                        assert(Self::spec_ids()[10] == extension_id);
                    }
                }
            }
            return r;
        }
        proof {
            assert(Self::spec_ids()[0] != extension_id);
            assert(Self::spec_ids()[1] != extension_id);
            assert(Self::spec_ids()[2] != extension_id);
            assert(Self::spec_ids()[3] != extension_id);
            assert(Self::spec_ids()[4] != extension_id);
            assert(Self::spec_ids()[5] != extension_id);
            assert(Self::spec_ids()[6] != extension_id);
            assert(Self::spec_ids()[7] != extension_id);
            assert(Self::spec_ids()[8] != extension_id);
            assert(Self::spec_ids()[9] != extension_id);
            assert(Self::spec_ids()[10] != extension_id);
            assert(!handles(Self::spec_ids(), extension_id)) by {
                assert forall|k: int| 0 <= k < Self::spec_ids().len() implies Self::spec_ids()[k] != extension_id by {}
            }
            assert forall|k: int| !is_first(Self::spec_ids(), extension_id, k) by {}
        }
        Err(ExtensionError::UnsupportedExtension)
    }

    #[allow(unused_variables)]
    fn return_ty(extension_id: ExtensionIdTy, call_index: u32) -> (r: Result<Vec<u8>, ExtensionError>) {
        if extension_id == A::extension_id() {
            proof {
                assert(is_first(Self::spec_ids(), extension_id, 0));
                assert forall|k: int| is_first(Self::spec_ids(), extension_id, k) implies k == 0 by {
                    if k < 0 {
                        assert(Self::spec_ids()[k] != extension_id);
                    } else if k > 0 {
                        assert(Self::spec_ids()[0] == extension_id);
                    }
                }
            }
            return Ok(return_ty_to::<A>(call_index));
        }
        if extension_id == B::extension_id() {
            proof {
                assert(is_first(Self::spec_ids(), extension_id, 1));
                assert forall|k: int| is_first(Self::spec_ids(), extension_id, k) implies k == 1 by {
                    if k < 1 {
                        assert(Self::spec_ids()[k] != extension_id);
                    } else if k > 1 {
                        assert(Self::spec_ids()[1] == extension_id);
                    }
                }
            }
            return Ok(return_ty_to::<B>(call_index));
        }
        if extension_id == C::extension_id() {
            proof {
                assert(is_first(Self::spec_ids(), extension_id, 2));
                assert forall|k: int| is_first(Self::spec_ids(), extension_id, k) implies k == 2 by {
                    if k < 2 {
                        assert(Self::spec_ids()[k] != extension_id);
                    } else if k > 2 {
                        assert(Self::spec_ids()[2] == extension_id);
                    }
                }
            }
            return Ok(return_ty_to::<C>(call_index));
        }
        if extension_id == D::extension_id() {
            proof {
                assert(is_first(Self::spec_ids(), extension_id, 3));
                assert forall|k: int| is_first(Self::spec_ids(), extension_id, k) implies k == 3 by {
                    if k < 3 {
                        assert(Self::spec_ids()[k] != extension_id);
                    } else if k > 3 {
                        assert(Self::spec_ids()[3] == extension_id);
                    }
                }
            }
            return Ok(return_ty_to::<D>(call_index));
        }
        if extension_id == E::extension_id() {
            proof {
                assert(is_first(Self::spec_ids(), extension_id, 4));
                assert forall|k: int| is_first(Self::spec_ids(), extension_id, k) implies k == 4 by {
                    if k < 4 {
                        assert(Self::spec_ids()[k] != extension_id);
                    } else if k > 4 {
                        assert(Self::spec_ids()[4] == extension_id);
                    }
                }
            }
            return Ok(return_ty_to::<E>(call_index));
        }
        if extension_id == F::extension_id() {
            proof {
                assert(is_first(Self::spec_ids(), extension_id, 5));
                assert forall|k: int| is_first(Self::spec_ids(), extension_id, k) implies k == 5 by {
                    if k < 5 {
                        assert(Self::spec_ids()[k] != extension_id);
                    } else if k > 5 {
                        assert(Self::spec_ids()[5] == extension_id);
                    }
                }
            }
            return Ok(return_ty_to::<F>(call_index));
        }
        if extension_id == G::extension_id() {
            proof {
                assert(is_first(Self::spec_ids(), extension_id, 6));
                assert forall|k: int| is_first(Self::spec_ids(), extension_id, k) implies k == 6 by {
                    if k < 6 {
                        assert(Self::spec_ids()[k] != extension_id);
                    } else if k > 6 {
                        assert(Self::spec_ids()[6] == extension_id);
                    }
                }
            }
            return Ok(return_ty_to::<G>(call_index));
        }
        if extension_id == H::extension_id() {
            proof {
                assert(is_first(Self::spec_ids(), extension_id, 7));
                assert forall|k: int| is_first(Self::spec_ids(), extension_id, k) implies k == 7 by {
                    if k < 7 {
                        assert(Self::spec_ids()[k] != extension_id);
                    } else if k > 7 {
                        assert(Self::spec_ids()[7] == extension_id);
                    }
                }
            }
            return Ok(return_ty_to::<H>(call_index));
        }
        if extension_id == I::extension_id() {
            proof {
                assert(is_first(Self::spec_ids(), extension_id, 8));
                assert forall|k: int| is_first(Self::spec_ids(), extension_id, k) implies k == 8 by {
                    if k < 8 {
                        assert(Self::spec_ids()[k] != extension_id);
                    } else if k > 8 {
                        assert(Self::spec_ids()[8] == extension_id);
                    }
                }
            }
            return Ok(return_ty_to::<I>(call_index));
        }
        if extension_id == J::extension_id() {
            proof {
                assert(is_first(Self::spec_ids(), extension_id, 9));
                assert forall|k: int| is_first(Self::spec_ids(), extension_id, k) implies k == 9 by {
                    if k < 9 {
                        assert(Self::spec_ids()[k] != extension_id);
                    } else if k > 9 {
                        assert(Self::spec_ids()[9] == extension_id);
                    }
                }
            }
            return Ok(return_ty_to::<J>(call_index));
        }
        if extension_id == K::extension_id() {
            proof {
                assert(is_first(Self::spec_ids(), extension_id, 10));
                assert forall|k: int| is_first(Self::spec_ids(), extension_id, k) implies k == 10 by {
                    if k < 10 {
                        assert(Self::spec_ids()[k] != extension_id);
                    } else if k > 10 {
                        assert(Self::spec_ids()[10] == extension_id);
                    }
                }
            }
            return Ok(return_ty_to::<K>(call_index));
        }
        proof {
            assert(Self::spec_ids()[0] != extension_id);
            assert(Self::spec_ids()[1] != extension_id);
            assert(Self::spec_ids()[2] != extension_id);
            assert(Self::spec_ids()[3] != extension_id);
            assert(Self::spec_ids()[4] != extension_id);
            assert(Self::spec_ids()[5] != extension_id);
            assert(Self::spec_ids()[6] != extension_id);
            assert(Self::spec_ids()[7] != extension_id);
            assert(Self::spec_ids()[8] != extension_id);
            assert(Self::spec_ids()[9] != extension_id);
            assert(Self::spec_ids()[10] != extension_id);
            assert forall|k: int| !is_first(Self::spec_ids(), extension_id, k) by {}
        }
        Err(ExtensionError::UnsupportedExtension)
    }

    fn method_count(extension_id: ExtensionIdTy) -> (r: Option<usize>) {
        if extension_id == A::extension_id() {
            proof {
                assert(is_first(Self::spec_ids(), extension_id, 0));
                assert forall|k: int| is_first(Self::spec_ids(), extension_id, k) implies k == 0 by {
                    if k < 0 {
                        assert(Self::spec_ids()[k] != extension_id);
                    } else if k > 0 {
                        assert(Self::spec_ids()[0] == extension_id);
                    }
                }
            }
            return Some(method_count_of::<A>());
        }
        if extension_id == B::extension_id() {
            proof {
                assert(is_first(Self::spec_ids(), extension_id, 1));
                assert forall|k: int| is_first(Self::spec_ids(), extension_id, k) implies k == 1 by {
                    if k < 1 {
                        assert(Self::spec_ids()[k] != extension_id);
                    } else if k > 1 {
                        assert(Self::spec_ids()[1] == extension_id);
                    }
                }
            }
            return Some(method_count_of::<B>());
        }
        if extension_id == C::extension_id() {
            proof {
                assert(is_first(Self::spec_ids(), extension_id, 2));
                assert forall|k: int| is_first(Self::spec_ids(), extension_id, k) implies k == 2 by {
                    if k < 2 {
                        assert(Self::spec_ids()[k] != extension_id);
                    } else if k > 2 {
                        assert(Self::spec_ids()[2] == extension_id);
                    }
                }
            }
            return Some(method_count_of::<C>());
        }
        if extension_id == D::extension_id() {
            proof {
                assert(is_first(Self::spec_ids(), extension_id, 3));
                assert forall|k: int| is_first(Self::spec_ids(), extension_id, k) implies k == 3 by {
                    if k < 3 {
                        assert(Self::spec_ids()[k] != extension_id);
                    } else if k > 3 {
                        assert(Self::spec_ids()[3] == extension_id);
                    }
                }
            }
            return Some(method_count_of::<D>());
        }
        if extension_id == E::extension_id() {
            proof {
                assert(is_first(Self::spec_ids(), extension_id, 4));
                assert forall|k: int| is_first(Self::spec_ids(), extension_id, k) implies k == 4 by {
                    if k < 4 {
                        assert(Self::spec_ids()[k] != extension_id);
                    } else if k > 4 {
                        assert(Self::spec_ids()[4] == extension_id);
                    }
                }
            }
            return Some(method_count_of::<E>());
        }
        if extension_id == F::extension_id() {
            proof {
                assert(is_first(Self::spec_ids(), extension_id, 5));
                assert forall|k: int| is_first(Self::spec_ids(), extension_id, k) implies k == 5 by {
                    if k < 5 {
                        assert(Self::spec_ids()[k] != extension_id);
                    } else if k > 5 {
                        assert(Self::spec_ids()[5] == extension_id);
                    }
                }
            }
            return Some(method_count_of::<F>());
        }
        if extension_id == G::extension_id() {
            proof {
                assert(is_first(Self::spec_ids(), extension_id, 6));
                assert forall|k: int| is_first(Self::spec_ids(), extension_id, k) implies k == 6 by {
                    if k < 6 {
                        assert(Self::spec_ids()[k] != extension_id);
                    } else if k > 6 {
                        assert(Self::spec_ids()[6] == extension_id);
                    }
                }
            }
            return Some(method_count_of::<G>());
        }
        if extension_id == H::extension_id() {
            proof {
                assert(is_first(Self::spec_ids(), extension_id, 7));
                assert forall|k: int| is_first(Self::spec_ids(), extension_id, k) implies k == 7 by {
                    if k < 7 {
                        assert(Self::spec_ids()[k] != extension_id);
                    } else if k > 7 {
                        assert(Self::spec_ids()[7] == extension_id);
                    }
                }
            }
            return Some(method_count_of::<H>());
        }
        if extension_id == I::extension_id() {
            proof {
                assert(is_first(Self::spec_ids(), extension_id, 8));
                assert forall|k: int| is_first(Self::spec_ids(), extension_id, k) implies k == 8 by {
                    if k < 8 {
                        assert(Self::spec_ids()[k] != extension_id);
                    } else if k > 8 {
                        assert(Self::spec_ids()[8] == extension_id);
                    }
                }
            }
            return Some(method_count_of::<I>());
        }
        if extension_id == J::extension_id() {
            proof {
                assert(is_first(Self::spec_ids(), extension_id, 9));
                assert forall|k: int| is_first(Self::spec_ids(), extension_id, k) implies k == 9 by {
                    if k < 9 {
                        assert(Self::spec_ids()[k] != extension_id);
                    } else if k > 9 {
                        assert(Self::spec_ids()[9] == extension_id);
                    }
                }
            }
            return Some(method_count_of::<J>());
        }
        if extension_id == K::extension_id() {
            proof {
                assert(is_first(Self::spec_ids(), extension_id, 10));
                assert forall|k: int| is_first(Self::spec_ids(), extension_id, k) implies k == 10 by {
                    if k < 10 {
                        assert(Self::spec_ids()[k] != extension_id);
                    } else if k > 10 {
                        assert(Self::spec_ids()[10] == extension_id);
                    }
                }
            }
            return Some(method_count_of::<K>());
        }
        proof {
            assert(Self::spec_ids()[0] != extension_id);
            assert(Self::spec_ids()[1] != extension_id);
            assert(Self::spec_ids()[2] != extension_id);
            assert(Self::spec_ids()[3] != extension_id);
            assert(Self::spec_ids()[4] != extension_id);
            assert(Self::spec_ids()[5] != extension_id);
            assert(Self::spec_ids()[6] != extension_id);
            assert(Self::spec_ids()[7] != extension_id);
            assert(Self::spec_ids()[8] != extension_id);
            assert(Self::spec_ids()[9] != extension_id);
            assert(Self::spec_ids()[10] != extension_id);
            assert forall|k: int| !is_first(Self::spec_ids(), extension_id, k) by {}
        }
        None
    }
}

/// Law: in a host's tuple of eleven extensions, the extension at each position
/// is the tuple's member at that position: its identifier and its metadata
/// are that member's, and so are the calls it reads from given bytes and
/// what they answer; no other position holds an extension.
pub proof fn law_tuple_members_eleven<A: CallData, B: CallData, C: CallData, D: CallData, E: CallData, F: CallData, G: CallData, H: CallData, I: CallData, J: CallData, K: CallData>(k: int, data: Seq<u8>, out: Seq<u8>)
    ensures
        <(A, B, C, D, E, F, G, H, I, J, K) as CallDataTuple>::spec_ids() == seq![A::spec_extension_id(), B::spec_extension_id(), C::spec_extension_id(), D::spec_extension_id(), E::spec_extension_id(), F::spec_extension_id(), G::spec_extension_id(), H::spec_extension_id(), I::spec_extension_id(), J::spec_extension_id(), K::spec_extension_id()],
        <(A, B, C, D, E, F, G, H, I, J, K) as CallDataTuple>::spec_metadata() == seq![A::spec_call_metadata(), B::spec_call_metadata(), C::spec_call_metadata(), D::spec_call_metadata(), E::spec_call_metadata(), F::spec_call_metadata(), G::spec_call_metadata(), H::spec_call_metadata(), I::spec_call_metadata(), J::spec_call_metadata(), K::spec_call_metadata()],
        <(A, B, C, D, E, F, G, H, I, J, K) as CallDataTuple>::spec_decodes(0, data) == call_decodes::<A>(data),
        <(A, B, C, D, E, F, G, H, I, J, K) as CallDataTuple>::spec_answers(0, data, out) == call_answers::<A>(data, out),
        <(A, B, C, D, E, F, G, H, I, J, K) as CallDataTuple>::spec_decodes(1, data) == call_decodes::<B>(data),
        <(A, B, C, D, E, F, G, H, I, J, K) as CallDataTuple>::spec_answers(1, data, out) == call_answers::<B>(data, out),
        <(A, B, C, D, E, F, G, H, I, J, K) as CallDataTuple>::spec_decodes(2, data) == call_decodes::<C>(data),
        <(A, B, C, D, E, F, G, H, I, J, K) as CallDataTuple>::spec_answers(2, data, out) == call_answers::<C>(data, out),
        <(A, B, C, D, E, F, G, H, I, J, K) as CallDataTuple>::spec_decodes(3, data) == call_decodes::<D>(data),
        <(A, B, C, D, E, F, G, H, I, J, K) as CallDataTuple>::spec_answers(3, data, out) == call_answers::<D>(data, out),
        <(A, B, C, D, E, F, G, H, I, J, K) as CallDataTuple>::spec_decodes(4, data) == call_decodes::<E>(data),
        <(A, B, C, D, E, F, G, H, I, J, K) as CallDataTuple>::spec_answers(4, data, out) == call_answers::<E>(data, out),
        <(A, B, C, D, E, F, G, H, I, J, K) as CallDataTuple>::spec_decodes(5, data) == call_decodes::<F>(data),
        <(A, B, C, D, E, F, G, H, I, J, K) as CallDataTuple>::spec_answers(5, data, out) == call_answers::<F>(data, out),
        <(A, B, C, D, E, F, G, H, I, J, K) as CallDataTuple>::spec_decodes(6, data) == call_decodes::<G>(data),
        <(A, B, C, D, E, F, G, H, I, J, K) as CallDataTuple>::spec_answers(6, data, out) == call_answers::<G>(data, out),
        <(A, B, C, D, E, F, G, H, I, J, K) as CallDataTuple>::spec_decodes(7, data) == call_decodes::<H>(data),
        <(A, B, C, D, E, F, G, H, I, J, K) as CallDataTuple>::spec_answers(7, data, out) == call_answers::<H>(data, out),
        <(A, B, C, D, E, F, G, H, I, J, K) as CallDataTuple>::spec_decodes(8, data) == call_decodes::<I>(data),
        <(A, B, C, D, E, F, G, H, I, J, K) as CallDataTuple>::spec_answers(8, data, out) == call_answers::<I>(data, out),
        <(A, B, C, D, E, F, G, H, I, J, K) as CallDataTuple>::spec_decodes(9, data) == call_decodes::<J>(data),
        <(A, B, C, D, E, F, G, H, I, J, K) as CallDataTuple>::spec_answers(9, data, out) == call_answers::<J>(data, out),
        <(A, B, C, D, E, F, G, H, I, J, K) as CallDataTuple>::spec_decodes(10, data) == call_decodes::<K>(data),
        <(A, B, C, D, E, F, G, H, I, J, K) as CallDataTuple>::spec_answers(10, data, out) == call_answers::<K>(data, out),
        !(0 <= k < 11) ==> !<(A, B, C, D, E, F, G, H, I, J, K) as CallDataTuple>::spec_decodes(k, data) && !<(A, B, C, D, E, F, G, H, I, J, K) as CallDataTuple>::spec_answers(k, data, out),
{
}

impl<A: CallData, B: CallData, C: CallData, D: CallData, E: CallData, F: CallData, G: CallData, H: CallData, I: CallData, J: CallData, K: CallData, L: CallData> CallDataTuple for (A, B, C, D, E, F, G, H, I, J, K, L) {
    open spec fn spec_ids() -> Seq<ExtensionIdTy> {
        seq![A::spec_extension_id(), B::spec_extension_id(), C::spec_extension_id(), D::spec_extension_id(), E::spec_extension_id(), F::spec_extension_id(), G::spec_extension_id(), H::spec_extension_id(), I::spec_extension_id(), J::spec_extension_id(), K::spec_extension_id(), L::spec_extension_id()]
    }

    open spec fn spec_metadata() -> Seq<ExtensionView> {
        seq![A::spec_call_metadata(), B::spec_call_metadata(), C::spec_call_metadata(), D::spec_call_metadata(), E::spec_call_metadata(), F::spec_call_metadata(), G::spec_call_metadata(), H::spec_call_metadata(), I::spec_call_metadata(), J::spec_call_metadata(), K::spec_call_metadata(), L::spec_call_metadata()]
    }

    open spec fn spec_decodes(k: int, data: Seq<u8>) -> bool {
        if k == 0 {
            call_decodes::<A>(data)
        } else if k == 1 {
            call_decodes::<B>(data)
        } else if k == 2 {
            call_decodes::<C>(data)
        } else if k == 3 {
            call_decodes::<D>(data)
        } else if k == 4 {
            call_decodes::<E>(data)
        } else if k == 5 {
            call_decodes::<F>(data)
        } else if k == 6 {
            call_decodes::<G>(data)
        } else if k == 7 {
            call_decodes::<H>(data)
        } else if k == 8 {
            call_decodes::<I>(data)
        } else if k == 9 {
            call_decodes::<J>(data)
        } else if k == 10 {
            call_decodes::<K>(data)
        } else if k == 11 {
            call_decodes::<L>(data)
        } else {
            false
        }
    }

    open spec fn spec_answers(k: int, data: Seq<u8>, out: Seq<u8>) -> bool {
        if k == 0 {
            call_answers::<A>(data, out)
        } else if k == 1 {
            call_answers::<B>(data, out)
        } else if k == 2 {
            call_answers::<C>(data, out)
        } else if k == 3 {
            call_answers::<D>(data, out)
        } else if k == 4 {
            call_answers::<E>(data, out)
        } else if k == 5 {
            call_answers::<F>(data, out)
        } else if k == 6 {
            call_answers::<G>(data, out)
        } else if k == 7 {
            call_answers::<H>(data, out)
        } else if k == 8 {
            call_answers::<I>(data, out)
        } else if k == 9 {
            call_answers::<J>(data, out)
        } else if k == 10 {
            call_answers::<K>(data, out)
        } else if k == 11 {
            call_answers::<L>(data, out)
        } else {
            false
        }
    }

    #[allow(unused_variables)]
    fn dispatch(extension_id: ExtensionIdTy, data: &[u8]) -> (r: Result<Vec<u8>, ExtensionError>) {
        if extension_id == A::extension_id() {
            let r = dispatch_to::<A>(data);
            proof {
                assert(is_first(Self::spec_ids(), extension_id, 0));
                assert forall|k: int| is_first(Self::spec_ids(), extension_id, k) implies k == 0 by {
                    if k < 0 {
                        assert(Self::spec_ids()[k] != extension_id);
                    } else if k > 0 {
                        assert(Self::spec_ids()[0] == extension_id);
                    }
                }
            }
            return r;
        }
        if extension_id == B::extension_id() {
            let r = dispatch_to::<B>(data);
            proof {
                assert(is_first(Self::spec_ids(), extension_id, 1));
                assert forall|k: int| is_first(Self::spec_ids(), extension_id, k) implies k == 1 by {
                    if k < 1 {
                        assert(Self::spec_ids()[k] != extension_id);
                    } else if k > 1 {
                        assert(Self::spec_ids()[1] == extension_id);
                    }
                }
            }
            return r;
        }
        if extension_id == C::extension_id() {
            let r = dispatch_to::<C>(data);
            proof {
                assert(is_first(Self::spec_ids(), extension_id, 2));
                assert forall|k: int| is_first(Self::spec_ids(), extension_id, k) implies k == 2 by {
                    if k < 2 {
                        assert(Self::spec_ids()[k] != extension_id);
                    } else if k > 2 {
                        assert(Self::spec_ids()[2] == extension_id);
                    }
                }
            }
            return r;
        }
        if extension_id == D::extension_id() {
            let r = dispatch_to::<D>(data);
            proof {
                assert(is_first(Self::spec_ids(), extension_id, 3));
                assert forall|k: int| is_first(Self::spec_ids(), extension_id, k) implies k == 3 by {
                    if k < 3 {
                        assert(Self::spec_ids()[k] != extension_id);
                    } else if k > 3 {
                        assert(Self::spec_ids()[3] == extension_id);
                    }
                }
            }
            return r;
        }
        if extension_id == E::extension_id() {
            let r = dispatch_to::<E>(data);
            proof {
                assert(is_first(Self::spec_ids(), extension_id, 4));
                assert forall|k: int| is_first(Self::spec_ids(), extension_id, k) implies k == 4 by {
                    if k < 4 {
                        assert(Self::spec_ids()[k] != extension_id);
                    } else if k > 4 {
                        assert(Self::spec_ids()[4] == extension_id);
                    }
                }
            }
            return r;
        }
        if extension_id == F::extension_id() {
            let r = dispatch_to::<F>(data);
            proof {
                assert(is_first(Self::spec_ids(), extension_id, 5));
                assert forall|k: int| is_first(Self::spec_ids(), extension_id, k) implies k == 5 by {
                    if k < 5 {
                        assert(Self::spec_ids()[k] != extension_id);
                    } else if k > 5 {
                        assert(Self::spec_ids()[5] == extension_id);
                    }
                }
            }
            return r;
        }
        if extension_id == G::extension_id() {
            let r = dispatch_to::<G>(data);
            proof {
                assert(is_first(Self::spec_ids(), extension_id, 6));
                assert forall|k: int| is_first(Self::spec_ids(), extension_id, k) implies k == 6 by {
                    if k < 6 {
                        assert(Self::spec_ids()[k] != extension_id);
                    } else if k > 6 {
                        assert(Self::spec_ids()[6] == extension_id);
                    }
                }
            }
            return r;
        }
        if extension_id == H::extension_id() {
            let r = dispatch_to::<H>(data);
            proof {
                assert(is_first(Self::spec_ids(), extension_id, 7));
                assert forall|k: int| is_first(Self::spec_ids(), extension_id, k) implies k == 7 by {
                    if k < 7 {
                        assert(Self::spec_ids()[k] != extension_id);
                    } else if k > 7 {
                        assert(Self::spec_ids()[7] == extension_id);
                    }
                }
            }
            return r;
        }
        if extension_id == I::extension_id() {
            let r = dispatch_to::<I>(data);
            proof {
                assert(is_first(Self::spec_ids(), extension_id, 8));
                assert forall|k: int| is_first(Self::spec_ids(), extension_id, k) implies k == 8 by {
                    if k < 8 {
                        assert(Self::spec_ids()[k] != extension_id);
                    } else if k > 8 {
                        assert(Self::spec_ids()[8] == extension_id);
                    }
                }
            }
            return r;
        }
        if extension_id == J::extension_id() {
            let r = dispatch_to::<J>(data);
            proof {
                assert(is_first(Self::spec_ids(), extension_id, 9));
                assert forall|k: int| is_first(Self::spec_ids(), extension_id, k) implies k == 9 by {
                    if k < 9 {
                        assert(Self::spec_ids()[k] != extension_id);
                    } else if k > 9 {
                        assert(Self::spec_ids()[9] == extension_id);
                    }
                }
            }
            return r;
        }
        if extension_id == K::extension_id() {
            let r = dispatch_to::<K>(data);
            proof {
                assert(is_first(Self::spec_ids(), extension_id, 10));
                assert forall|k: int| is_first(Self::spec_ids(), extension_id, k) implies k == 10 by {
                    if k < 10 {
                        assert(Self::spec_ids()[k] != extension_id);
                    } else if k > 10 {
                        assert(Self::spec_ids()[10] == extension_id);
                    }
                }
            }
            return r;
        }
        if extension_id == L::extension_id() {
            let r = dispatch_to::<L>(data);
            proof {
                assert(is_first(Self::spec_ids(), extension_id, 11));
                assert forall|k: int| is_first(Self::spec_ids(), extension_id, k) implies k == 11 by {
                    if k < 11 {
                        assert(Self::spec_ids()[k] != extension_id);
                    } else if k > 11 {
                        assert(Self::spec_ids()[11] == extension_id);
                    }
                }
            }
            return r;
        }
        proof {
            assert(Self::spec_ids()[0] != extension_id);
            assert(Self::spec_ids()[1] != extension_id);
            assert(Self::spec_ids()[2] != extension_id);
            assert(Self::spec_ids()[3] != extension_id);
            assert(Self::spec_ids()[4] != extension_id);
            assert(Self::spec_ids()[5] != extension_id);
            assert(Self::spec_ids()[6] != extension_id);
            assert(Self::spec_ids()[7] != extension_id);
            assert(Self::spec_ids()[8] != extension_id);
            assert(Self::spec_ids()[9] != extension_id);
            assert(Self::spec_ids()[10] != extension_id);
            assert(Self::spec_ids()[11] != extension_id);
            assert(!handles(Self::spec_ids(), extension_id)) by {
                assert forall|k: int| 0 <= k < Self::spec_ids().len() implies Self::spec_ids()[k] != extension_id by {}
            }
            assert forall|k: int| !is_first(Self::spec_ids(), extension_id, k) by {}
        }
        Err(ExtensionError::UnsupportedExtension)
    }

    #[allow(unused_variables)]
    fn return_ty(extension_id: ExtensionIdTy, call_index: u32) -> (r: Result<Vec<u8>, ExtensionError>) {
        if extension_id == A::extension_id() {
            proof {
                assert(is_first(Self::spec_ids(), extension_id, 0));
                assert forall|k: int| is_first(Self::spec_ids(), extension_id, k) implies k == 0 by {
                    if k < 0 {
                        assert(Self::spec_ids()[k] != extension_id);
                    } else if k > 0 {
                        assert(Self::spec_ids()[0] == extension_id);
                    }
                }
            }
            return Ok(return_ty_to::<A>(call_index));
        }
        if extension_id == B::extension_id() {
            proof {
                assert(is_first(Self::spec_ids(), extension_id, 1));
                assert forall|k: int| is_first(Self::spec_ids(), extension_id, k) implies k == 1 by {
                    if k < 1 {
                        assert(Self::spec_ids()[k] != extension_id);
                    } else if k > 1 {
                        assert(Self::spec_ids()[1] == extension_id);
                    }
                }
            }
            return Ok(return_ty_to::<B>(call_index));
        }
        if extension_id == C::extension_id() {
            proof {
                assert(is_first(Self::spec_ids(), extension_id, 2));
                assert forall|k: int| is_first(Self::spec_ids(), extension_id, k) implies k == 2 by {
                    if k < 2 {
                        assert(Self::spec_ids()[k] != extension_id);
                    } else if k > 2 {
                        assert(Self::spec_ids()[2] == extension_id);
                    }
                }
            }
            return Ok(return_ty_to::<C>(call_index));
        }
        if extension_id == D::extension_id() {
            proof {
                assert(is_first(Self::spec_ids(), extension_id, 3));
                assert forall|k: int| is_first(Self::spec_ids(), extension_id, k) implies k == 3 by {
                    if k < 3 {
                        assert(Self::spec_ids()[k] != extension_id);
                    } else if k > 3 {
                        assert(Self::spec_ids()[3] == extension_id);
                    }
                }
            }
            return Ok(return_ty_to::<D>(call_index));
        }
        if extension_id == E::extension_id() {
            proof {
                assert(is_first(Self::spec_ids(), extension_id, 4));
                assert forall|k: int| is_first(Self::spec_ids(), extension_id, k) implies k == 4 by {
                    if k < 4 {
                        assert(Self::spec_ids()[k] != extension_id);
                    } else if k > 4 {
                        assert(Self::spec_ids()[4] == extension_id);
                    }
                }
            }
            return Ok(return_ty_to::<E>(call_index));
        }
        if extension_id == F::extension_id() {
            proof {
                assert(is_first(Self::spec_ids(), extension_id, 5));
                assert forall|k: int| is_first(Self::spec_ids(), extension_id, k) implies k == 5 by {
                    if k < 5 {
                        assert(Self::spec_ids()[k] != extension_id);
                    } else if k > 5 {
                        assert(Self::spec_ids()[5] == extension_id);
                    }
                }
            }
            return Ok(return_ty_to::<F>(call_index));
        }
        if extension_id == G::extension_id() {
            proof {
                assert(is_first(Self::spec_ids(), extension_id, 6));
                assert forall|k: int| is_first(Self::spec_ids(), extension_id, k) implies k == 6 by {
                    if k < 6 {
                        assert(Self::spec_ids()[k] != extension_id);
                    } else if k > 6 {
                        assert(Self::spec_ids()[6] == extension_id);
                    }
                }
            }
            return Ok(return_ty_to::<G>(call_index));
        }
        if extension_id == H::extension_id() {
            proof {
                assert(is_first(Self::spec_ids(), extension_id, 7));
                assert forall|k: int| is_first(Self::spec_ids(), extension_id, k) implies k == 7 by {
                    if k < 7 {
                        assert(Self::spec_ids()[k] != extension_id);
                    } else if k > 7 {
                        assert(Self::spec_ids()[7] == extension_id);
                    }
                }
            }
            return Ok(return_ty_to::<H>(call_index));
        }
        if extension_id == I::extension_id() {
            proof {
                assert(is_first(Self::spec_ids(), extension_id, 8));
                assert forall|k: int| is_first(Self::spec_ids(), extension_id, k) implies k == 8 by {
                    if k < 8 {
                        assert(Self::spec_ids()[k] != extension_id);
                    } else if k > 8 {
                        assert(Self::spec_ids()[8] == extension_id);
                    }
                }
            }
            return Ok(return_ty_to::<I>(call_index));
        }
        if extension_id == J::extension_id() {
            proof {
                assert(is_first(Self::spec_ids(), extension_id, 9));
                assert forall|k: int| is_first(Self::spec_ids(), extension_id, k) implies k == 9 by {
                    if k < 9 {
                        assert(Self::spec_ids()[k] != extension_id);
                    } else if k > 9 {
                        assert(Self::spec_ids()[9] == extension_id);
                    }
                }
            }
            return Ok(return_ty_to::<J>(call_index));
        }
        if extension_id == K::extension_id() {
            proof {
                assert(is_first(Self::spec_ids(), extension_id, 10));
                assert forall|k: int| is_first(Self::spec_ids(), extension_id, k) implies k == 10 by {
                    if k < 10 {
                        assert(Self::spec_ids()[k] != extension_id);
                    } else if k > 10 {
                        assert(Self::spec_ids()[10] == extension_id);
                    }
                }
            }
            return Ok(return_ty_to::<K>(call_index));
        }
        if extension_id == L::extension_id() {
            proof {
                assert(is_first(Self::spec_ids(), extension_id, 11));
                assert forall|k: int| is_first(Self::spec_ids(), extension_id, k) implies k == 11 by {
                    if k < 11 {
                        assert(Self::spec_ids()[k] != extension_id);
                    } else if k > 11 {
                        assert(Self::spec_ids()[11] == extension_id);
                    }
                }
            }
            return Ok(return_ty_to::<L>(call_index));
        }
        proof {
            assert(Self::spec_ids()[0] != extension_id);
            assert(Self::spec_ids()[1] != extension_id);
            assert(Self::spec_ids()[2] != extension_id);
            assert(Self::spec_ids()[3] != extension_id);
            assert(Self::spec_ids()[4] != extension_id);
            assert(Self::spec_ids()[5] != extension_id);
            assert(Self::spec_ids()[6] != extension_id);
            assert(Self::spec_ids()[7] != extension_id);
            assert(Self::spec_ids()[8] != extension_id);
            assert(Self::spec_ids()[9] != extension_id);
            assert(Self::spec_ids()[10] != extension_id);
            assert(Self::spec_ids()[11] != extension_id);
            assert forall|k: int| !is_first(Self::spec_ids(), extension_id, k) by {}
        }
        Err(ExtensionError::UnsupportedExtension)
    }

    fn method_count(extension_id: ExtensionIdTy) -> (r: Option<usize>) {
        if extension_id == A::extension_id() {
            proof {
                assert(is_first(Self::spec_ids(), extension_id, 0));
                assert forall|k: int| is_first(Self::spec_ids(), extension_id, k) implies k == 0 by {
                    if k < 0 {
                        assert(Self::spec_ids()[k] != extension_id);
                    } else if k > 0 {
                        assert(Self::spec_ids()[0] == extension_id);
                    }
                }
            }
            return Some(method_count_of::<A>());
        }
        if extension_id == B::extension_id() {
            proof {
                assert(is_first(Self::spec_ids(), extension_id, 1));
                assert forall|k: int| is_first(Self::spec_ids(), extension_id, k) implies k == 1 by {
                    if k < 1 {
                        assert(Self::spec_ids()[k] != extension_id);
                    } else if k > 1 {
                        assert(Self::spec_ids()[1] == extension_id);
                    }
                }
            }
            return Some(method_count_of::<B>());
        }
        if extension_id == C::extension_id() {
            proof {
                assert(is_first(Self::spec_ids(), extension_id, 2));
                assert forall|k: int| is_first(Self::spec_ids(), extension_id, k) implies k == 2 by {
                    if k < 2 {
                        assert(Self::spec_ids()[k] != extension_id);
                    } else if k > 2 {
                        assert(Self::spec_ids()[2] == extension_id);
                    }
                }
            }
            return Some(method_count_of::<C>());
        }
        if extension_id == D::extension_id() {
            proof {
                assert(is_first(Self::spec_ids(), extension_id, 3));
                assert forall|k: int| is_first(Self::spec_ids(), extension_id, k) implies k == 3 by {
                    if k < 3 {
                        assert(Self::spec_ids()[k] != extension_id);
                    } else if k > 3 {
                        assert(Self::spec_ids()[3] == extension_id);
                    }
                }
            }
            return Some(method_count_of::<D>());
        }
        if extension_id == E::extension_id() {
            proof {
                assert(is_first(Self::spec_ids(), extension_id, 4));
                assert forall|k: int| is_first(Self::spec_ids(), extension_id, k) implies k == 4 by {
                    if k < 4 {
                        assert(Self::spec_ids()[k] != extension_id);
                    } else if k > 4 {
                        assert(Self::spec_ids()[4] == extension_id);
                    }
                }
            }
            return Some(method_count_of::<E>());
        }
        if extension_id == F::extension_id() {
            proof {
                assert(is_first(Self::spec_ids(), extension_id, 5));
                assert forall|k: int| is_first(Self::spec_ids(), extension_id, k) implies k == 5 by {
                    if k < 5 {
                        assert(Self::spec_ids()[k] != extension_id);
                    } else if k > 5 {
                        assert(Self::spec_ids()[5] == extension_id);
                    }
                }
            }
            return Some(method_count_of::<F>());
        }
        if extension_id == G::extension_id() {
            proof {
                assert(is_first(Self::spec_ids(), extension_id, 6));
                assert forall|k: int| is_first(Self::spec_ids(), extension_id, k) implies k == 6 by {
                    if k < 6 {
                        assert(Self::spec_ids()[k] != extension_id);
                    } else if k > 6 {
                        assert(Self::spec_ids()[6] == extension_id);
                    }
                }
            }
            return Some(method_count_of::<G>());
        }
        if extension_id == H::extension_id() {
            proof {
                assert(is_first(Self::spec_ids(), extension_id, 7));
                assert forall|k: int| is_first(Self::spec_ids(), extension_id, k) implies k == 7 by {
                    if k < 7 {
                        assert(Self::spec_ids()[k] != extension_id);
                    } else if k > 7 {
                        assert(Self::spec_ids()[7] == extension_id);
                    }
                }
            }
            return Some(method_count_of::<H>());
        }
        if extension_id == I::extension_id() {
            proof {
                assert(is_first(Self::spec_ids(), extension_id, 8));
                assert forall|k: int| is_first(Self::spec_ids(), extension_id, k) implies k == 8 by {
                    if k < 8 {
                        assert(Self::spec_ids()[k] != extension_id);
                    } else if k > 8 {
                        assert(Self::spec_ids()[8] == extension_id);
                    }
                }
            }
            return Some(method_count_of::<I>());
        }
        if extension_id == J::extension_id() {
            proof {
                assert(is_first(Self::spec_ids(), extension_id, 9));
                assert forall|k: int| is_first(Self::spec_ids(), extension_id, k) implies k == 9 by {
                    if k < 9 {
                        assert(Self::spec_ids()[k] != extension_id);
                    } else if k > 9 {
                        assert(Self::spec_ids()[9] == extension_id);
                    }
                }
            }
            return Some(method_count_of::<J>());
        }
        if extension_id == K::extension_id() {
            proof {
                assert(is_first(Self::spec_ids(), extension_id, 10));
                assert forall|k: int| is_first(Self::spec_ids(), extension_id, k) implies k == 10 by {
                    if k < 10 {
                        assert(Self::spec_ids()[k] != extension_id);
                    } else if k > 10 {
                        assert(Self::spec_ids()[10] == extension_id);
                    }
                }
            }
            return Some(method_count_of::<K>());
        }
        if extension_id == L::extension_id() {
            proof {
                assert(is_first(Self::spec_ids(), extension_id, 11));
                assert forall|k: int| is_first(Self::spec_ids(), extension_id, k) implies k == 11 by {
                    if k < 11 {
                        assert(Self::spec_ids()[k] != extension_id);
                    } else if k > 11 {
                        assert(Self::spec_ids()[11] == extension_id);
                    }
                }
            }
            return Some(method_count_of::<L>());
        }
        proof {
            assert(Self::spec_ids()[0] != extension_id);
            assert(Self::spec_ids()[1] != extension_id);
            assert(Self::spec_ids()[2] != extension_id);
            assert(Self::spec_ids()[3] != extension_id);
            assert(Self::spec_ids()[4] != extension_id);
            assert(Self::spec_ids()[5] != extension_id);
            assert(Self::spec_ids()[6] != extension_id);
            assert(Self::spec_ids()[7] != extension_id);
            assert(Self::spec_ids()[8] != extension_id);
            assert(Self::spec_ids()[9] != extension_id);
            assert(Self::spec_ids()[10] != extension_id);
            assert(Self::spec_ids()[11] != extension_id);
            assert forall|k: int| !is_first(Self::spec_ids(), extension_id, k) by {}
        }
        None
    }
}

/// Law: in a host's tuple of twelve extensions, the extension at each position
/// is the tuple's member at that position: its identifier and its metadata
/// are that member's, and so are the calls it reads from given bytes and
/// what they answer; no other position holds an extension.
pub proof fn law_tuple_members_twelve<A: CallData, B: CallData, C: CallData, D: CallData, E: CallData, F: CallData, G: CallData, H: CallData, I: CallData, J: CallData, K: CallData, L: CallData>(k: int, data: Seq<u8>, out: Seq<u8>)
    ensures
        <(A, B, C, D, E, F, G, H, I, J, K, L) as CallDataTuple>::spec_ids() == seq![A::spec_extension_id(), B::spec_extension_id(), C::spec_extension_id(), D::spec_extension_id(), E::spec_extension_id(), F::spec_extension_id(), G::spec_extension_id(), H::spec_extension_id(), I::spec_extension_id(), J::spec_extension_id(), K::spec_extension_id(), L::spec_extension_id()],
        <(A, B, C, D, E, F, G, H, I, J, K, L) as CallDataTuple>::spec_metadata() == seq![A::spec_call_metadata(), B::spec_call_metadata(), C::spec_call_metadata(), D::spec_call_metadata(), E::spec_call_metadata(), F::spec_call_metadata(), G::spec_call_metadata(), H::spec_call_metadata(), I::spec_call_metadata(), J::spec_call_metadata(), K::spec_call_metadata(), L::spec_call_metadata()],
        <(A, B, C, D, E, F, G, H, I, J, K, L) as CallDataTuple>::spec_decodes(0, data) == call_decodes::<A>(data),
        <(A, B, C, D, E, F, G, H, I, J, K, L) as CallDataTuple>::spec_answers(0, data, out) == call_answers::<A>(data, out),
        <(A, B, C, D, E, F, G, H, I, J, K, L) as CallDataTuple>::spec_decodes(1, data) == call_decodes::<B>(data),
        <(A, B, C, D, E, F, G, H, I, J, K, L) as CallDataTuple>::spec_answers(1, data, out) == call_answers::<B>(data, out),
        <(A, B, C, D, E, F, G, H, I, J, K, L) as CallDataTuple>::spec_decodes(2, data) == call_decodes::<C>(data),
        <(A, B, C, D, E, F, G, H, I, J, K, L) as CallDataTuple>::spec_answers(2, data, out) == call_answers::<C>(data, out),
        <(A, B, C, D, E, F, G, H, I, J, K, L) as CallDataTuple>::spec_decodes(3, data) == call_decodes::<D>(data),
        <(A, B, C, D, E, F, G, H, I, J, K, L) as CallDataTuple>::spec_answers(3, data, out) == call_answers::<D>(data, out),
        <(A, B, C, D, E, F, G, H, I, J, K, L) as CallDataTuple>::spec_decodes(4, data) == call_decodes::<E>(data),
        <(A, B, C, D, E, F, G, H, I, J, K, L) as CallDataTuple>::spec_answers(4, data, out) == call_answers::<E>(data, out),
        <(A, B, C, D, E, F, G, H, I, J, K, L) as CallDataTuple>::spec_decodes(5, data) == call_decodes::<F>(data),
        <(A, B, C, D, E, F, G, H, I, J, K, L) as CallDataTuple>::spec_answers(5, data, out) == call_answers::<F>(data, out),
        <(A, B, C, D, E, F, G, H, I, J, K, L) as CallDataTuple>::spec_decodes(6, data) == call_decodes::<G>(data),
        <(A, B, C, D, E, F, G, H, I, J, K, L) as CallDataTuple>::spec_answers(6, data, out) == call_answers::<G>(data, out),
        <(A, B, C, D, E, F, G, H, I, J, K, L) as CallDataTuple>::spec_decodes(7, data) == call_decodes::<H>(data),
        <(A, B, C, D, E, F, G, H, I, J, K, L) as CallDataTuple>::spec_answers(7, data, out) == call_answers::<H>(data, out),
        <(A, B, C, D, E, F, G, H, I, J, K, L) as CallDataTuple>::spec_decodes(8, data) == call_decodes::<I>(data),
        <(A, B, C, D, E, F, G, H, I, J, K, L) as CallDataTuple>::spec_answers(8, data, out) == call_answers::<I>(data, out),
        <(A, B, C, D, E, F, G, H, I, J, K, L) as CallDataTuple>::spec_decodes(9, data) == call_decodes::<J>(data),
        <(A, B, C, D, E, F, G, H, I, J, K, L) as CallDataTuple>::spec_answers(9, data, out) == call_answers::<J>(data, out),
        <(A, B, C, D, E, F, G, H, I, J, K, L) as CallDataTuple>::spec_decodes(10, data) == call_decodes::<K>(data),
        <(A, B, C, D, E, F, G, H, I, J, K, L) as CallDataTuple>::spec_answers(10, data, out) == call_answers::<K>(data, out),
        <(A, B, C, D, E, F, G, H, I, J, K, L) as CallDataTuple>::spec_decodes(11, data) == call_decodes::<L>(data),
        <(A, B, C, D, E, F, G, H, I, J, K, L) as CallDataTuple>::spec_answers(11, data, out) == call_answers::<L>(data, out),
        !(0 <= k < 12) ==> !<(A, B, C, D, E, F, G, H, I, J, K, L) as CallDataTuple>::spec_decodes(k, data) && !<(A, B, C, D, E, F, G, H, I, J, K, L) as CallDataTuple>::spec_answers(k, data, out),
{
}

impl<A: CallData, B: CallData, C: CallData, D: CallData, E: CallData, F: CallData, G: CallData, H: CallData, I: CallData, J: CallData, K: CallData, L: CallData, M: CallData> CallDataTuple for (A, B, C, D, E, F, G, H, I, J, K, L, M) {
    open spec fn spec_ids() -> Seq<ExtensionIdTy> {
        seq![A::spec_extension_id(), B::spec_extension_id(), C::spec_extension_id(), D::spec_extension_id(), E::spec_extension_id(), F::spec_extension_id(), G::spec_extension_id(), H::spec_extension_id(), I::spec_extension_id(), J::spec_extension_id(), K::spec_extension_id(), L::spec_extension_id(), M::spec_extension_id()]
    }

    open spec fn spec_metadata() -> Seq<ExtensionView> {
        seq![A::spec_call_metadata(), B::spec_call_metadata(), C::spec_call_metadata(), D::spec_call_metadata(), E::spec_call_metadata(), F::spec_call_metadata(), G::spec_call_metadata(), H::spec_call_metadata(), I::spec_call_metadata(), J::spec_call_metadata(), K::spec_call_metadata(), L::spec_call_metadata(), M::spec_call_metadata()]
    }

    open spec fn spec_decodes(k: int, data: Seq<u8>) -> bool {
        if k == 0 {
            call_decodes::<A>(data)
        } else if k == 1 {
            call_decodes::<B>(data)
        } else if k == 2 {
            call_decodes::<C>(data)
        } else if k == 3 {
            call_decodes::<D>(data)
        } else if k == 4 {
            call_decodes::<E>(data)
        } else if k == 5 {
            call_decodes::<F>(data)
        } else if k == 6 {
            call_decodes::<G>(data)
        } else if k == 7 {
            call_decodes::<H>(data)
        } else if k == 8 {
            call_decodes::<I>(data)
        } else if k == 9 {
            call_decodes::<J>(data)
        } else if k == 10 {
            call_decodes::<K>(data)
        } else if k == 11 {
            call_decodes::<L>(data)
        } else if k == 12 {
            call_decodes::<M>(data)
        } else {
            false
        }
    }

    open spec fn spec_answers(k: int, data: Seq<u8>, out: Seq<u8>) -> bool {
        if k == 0 {
            call_answers::<A>(data, out)
        } else if k == 1 {
            call_answers::<B>(data, out)
        } else if k == 2 {
            call_answers::<C>(data, out)
        } else if k == 3 {
            call_answers::<D>(data, out)
        } else if k == 4 {
            call_answers::<E>(data, out)
        } else if k == 5 {
            call_answers::<F>(data, out)
        } else if k == 6 {
            call_answers::<G>(data, out)
        } else if k == 7 {
            call_answers::<H>(data, out)
        } else if k == 8 {
            call_answers::<I>(data, out)
        } else if k == 9 {
            call_answers::<J>(data, out)
        } else if k == 10 {
            call_answers::<K>(data, out)
        } else if k == 11 {
            call_answers::<L>(data, out)
        } else if k == 12 {
            call_answers::<M>(data, out)
        } else {
            false
        }
    }

    #[allow(unused_variables)]
    fn dispatch(extension_id: ExtensionIdTy, data: &[u8]) -> (r: Result<Vec<u8>, ExtensionError>) {
        if extension_id == A::extension_id() {
            let r = dispatch_to::<A>(data);
            proof {
                assert(is_first(Self::spec_ids(), extension_id, 0));
                assert forall|k: int| is_first(Self::spec_ids(), extension_id, k) implies k == 0 by {
                    if k < 0 {
                        assert(Self::spec_ids()[k] != extension_id);
                    } else if k > 0 {
                        assert(Self::spec_ids()[0] == extension_id);
                    }
                }
            }
            return r;
        }
        if extension_id == B::extension_id() {
            let r = dispatch_to::<B>(data);
            proof {
                assert(is_first(Self::spec_ids(), extension_id, 1));
                assert forall|k: int| is_first(Self::spec_ids(), extension_id, k) implies k == 1 by {
                    if k < 1 {
                        assert(Self::spec_ids()[k] != extension_id);
                    } else if k > 1 {
                        assert(Self::spec_ids()[1] == extension_id);
                    }
                }
            }
            return r;
        }
        if extension_id == C::extension_id() {
            let r = dispatch_to::<C>(data);
            proof {
                assert(is_first(Self::spec_ids(), extension_id, 2));
                assert forall|k: int| is_first(Self::spec_ids(), extension_id, k) implies k == 2 by {
                    if k < 2 {
                        assert(Self::spec_ids()[k] != extension_id);
                    } else if k > 2 {
                        assert(Self::spec_ids()[2] == extension_id);
                    }
                }
            }
            return r;
        }
        if extension_id == D::extension_id() {
            let r = dispatch_to::<D>(data);
            proof {
                assert(is_first(Self::spec_ids(), extension_id, 3));
                assert forall|k: int| is_first(Self::spec_ids(), extension_id, k) implies k == 3 by {
                    if k < 3 {
                        assert(Self::spec_ids()[k] != extension_id);
                    } else if k > 3 {
                        assert(Self::spec_ids()[3] == extension_id);
                    }
                }
            }
            return r;
        }
        if extension_id == E::extension_id() {
            let r = dispatch_to::<E>(data);
            proof {
                assert(is_first(Self::spec_ids(), extension_id, 4));
                assert forall|k: int| is_first(Self::spec_ids(), extension_id, k) implies k == 4 by {
                    if k < 4 {
                        assert(Self::spec_ids()[k] != extension_id);
                    } else if k > 4 {
                        assert(Self::spec_ids()[4] == extension_id);
                    }
                }
            }
            return r;
        }
        if extension_id == F::extension_id() {
            let r = dispatch_to::<F>(data);
            proof {
                assert(is_first(Self::spec_ids(), extension_id, 5));
                assert forall|k: int| is_first(Self::spec_ids(), extension_id, k) implies k == 5 by {
                    if k < 5 {
                        assert(Self::spec_ids()[k] != extension_id);
                    } else if k > 5 {
                        assert(Self::spec_ids()[5] == extension_id);
                    }
                }
            }
            return r;
        }
        if extension_id == G::extension_id() {
            let r = dispatch_to::<G>(data);
            proof {
                assert(is_first(Self::spec_ids(), extension_id, 6));
                assert forall|k: int| is_first(Self::spec_ids(), extension_id, k) implies k == 6 by {
                    if k < 6 {
                        assert(Self::spec_ids()[k] != extension_id);
                    } else if k > 6 {
                        assert(Self::spec_ids()[6] == extension_id);
                    }
                }
            }
            return r;
        }
        if extension_id == H::extension_id() {
            let r = dispatch_to::<H>(data);
            proof {
                assert(is_first(Self::spec_ids(), extension_id, 7));
                assert forall|k: int| is_first(Self::spec_ids(), extension_id, k) implies k == 7 by {
                    if k < 7 {
                        assert(Self::spec_ids()[k] != extension_id);
                    } else if k > 7 {
                        assert(Self::spec_ids()[7] == extension_id);
                    }
                }
            }
            return r;
        }
        if extension_id == I::extension_id() {
            let r = dispatch_to::<I>(data);
            proof {
                assert(is_first(Self::spec_ids(), extension_id, 8));
                assert forall|k: int| is_first(Self::spec_ids(), extension_id, k) implies k == 8 by {
                    if k < 8 {
                        assert(Self::spec_ids()[k] != extension_id);
                    } else if k > 8 {
                        assert(Self::spec_ids()[8] == extension_id);
                    }
                }
            }
            return r;
        }
        if extension_id == J::extension_id() {
            let r = dispatch_to::<J>(data);
            proof {
                assert(is_first(Self::spec_ids(), extension_id, 9));
                assert forall|k: int| is_first(Self::spec_ids(), extension_id, k) implies k == 9 by {
                    if k < 9 {
                        assert(Self::spec_ids()[k] != extension_id);
                    } else if k > 9 {
                        assert(Self::spec_ids()[9] == extension_id);
                    }
                }
            }
            return r;
        }
        if extension_id == K::extension_id() {
            let r = dispatch_to::<K>(data);
            proof {
                assert(is_first(Self::spec_ids(), extension_id, 10));
                assert forall|k: int| is_first(Self::spec_ids(), extension_id, k) implies k == 10 by {
                    if k < 10 {
                        assert(Self::spec_ids()[k] != extension_id);
                    } else if k > 10 {
                        assert(Self::spec_ids()[10] == extension_id);
                    }
                }
            }
            return r;
        }
        if extension_id == L::extension_id() {
            let r = dispatch_to::<L>(data);
            proof {
                assert(is_first(Self::spec_ids(), extension_id, 11));
                assert forall|k: int| is_first(Self::spec_ids(), extension_id, k) implies k == 11 by {
                    if k < 11 {
                        assert(Self::spec_ids()[k] != extension_id);
                    } else if k > 11 {
                        assert(Self::spec_ids()[11] == extension_id);
                    }
                }
            }
            return r;
        }
        if extension_id == M::extension_id() {
            let r = dispatch_to::<M>(data);
            proof {
                assert(is_first(Self::spec_ids(), extension_id, 12));
                assert forall|k: int| is_first(Self::spec_ids(), extension_id, k) implies k == 12 by {
                    if k < 12 {
                        assert(Self::spec_ids()[k] != extension_id);
                    } else if k > 12 {
                        assert(Self::spec_ids()[12] == extension_id);
                    }
                }
            }
            return r;
        }
        proof {
            assert(Self::spec_ids()[0] != extension_id);
            assert(Self::spec_ids()[1] != extension_id);
            assert(Self::spec_ids()[2] != extension_id);
            assert(Self::spec_ids()[3] != extension_id);
            assert(Self::spec_ids()[4] != extension_id);
            assert(Self::spec_ids()[5] != extension_id);
            assert(Self::spec_ids()[6] != extension_id);
            assert(Self::spec_ids()[7] != extension_id);
            assert(Self::spec_ids()[8] != extension_id);
            assert(Self::spec_ids()[9] != extension_id);
            assert(Self::spec_ids()[10] != extension_id);
            assert(Self::spec_ids()[11] != extension_id);
            assert(Self::spec_ids()[12] != extension_id);
            assert(!handles(Self::spec_ids(), extension_id)) by {
                assert forall|k: int| 0 <= k < Self::spec_ids().len() implies Self::spec_ids()[k] != extension_id by {}
            }
            assert forall|k: int| !is_first(Self::spec_ids(), extension_id, k) by {}
        }
        Err(ExtensionError::UnsupportedExtension)
    }

    #[allow(unused_variables)]
    fn return_ty(extension_id: ExtensionIdTy, call_index: u32) -> (r: Result<Vec<u8>, ExtensionError>) {
        if extension_id == A::extension_id() {
            proof {
                assert(is_first(Self::spec_ids(), extension_id, 0));
                assert forall|k: int| is_first(Self::spec_ids(), extension_id, k) implies k == 0 by {
                    if k < 0 {
                        assert(Self::spec_ids()[k] != extension_id);
                    } else if k > 0 {
                        assert(Self::spec_ids()[0] == extension_id);
                    }
                }
            }
            return Ok(return_ty_to::<A>(call_index));
        }
        if extension_id == B::extension_id() {
            proof {
                assert(is_first(Self::spec_ids(), extension_id, 1));
                assert forall|k: int| is_first(Self::spec_ids(), extension_id, k) implies k == 1 by {
                    if k < 1 {
                        assert(Self::spec_ids()[k] != extension_id);
                    } else if k > 1 {
                        assert(Self::spec_ids()[1] == extension_id);
                    }
                }
            }
            return Ok(return_ty_to::<B>(call_index));
        }
        if extension_id == C::extension_id() {
            proof {
                assert(is_first(Self::spec_ids(), extension_id, 2));
                assert forall|k: int| is_first(Self::spec_ids(), extension_id, k) implies k == 2 by {
                    if k < 2 {
                        assert(Self::spec_ids()[k] != extension_id);
                    } else if k > 2 {
                        assert(Self::spec_ids()[2] == extension_id);
                    }
                }
            }
            return Ok(return_ty_to::<C>(call_index));
        }
        if extension_id == D::extension_id() {
            proof {
                assert(is_first(Self::spec_ids(), extension_id, 3));
                assert forall|k: int| is_first(Self::spec_ids(), extension_id, k) implies k == 3 by {
                    if k < 3 {
                        assert(Self::spec_ids()[k] != extension_id);
                    } else if k > 3 {
                        assert(Self::spec_ids()[3] == extension_id);
                    }
                }
            }
            return Ok(return_ty_to::<D>(call_index));
        }
        if extension_id == E::extension_id() {
            proof {
                assert(is_first(Self::spec_ids(), extension_id, 4));
                assert forall|k: int| is_first(Self::spec_ids(), extension_id, k) implies k == 4 by {
                    if k < 4 {
                        assert(Self::spec_ids()[k] != extension_id);
                    } else if k > 4 {
                        assert(Self::spec_ids()[4] == extension_id);
                    }
                }
            }
            return Ok(return_ty_to::<E>(call_index));
        }
        if extension_id == F::extension_id() {
            proof {
                assert(is_first(Self::spec_ids(), extension_id, 5));
                assert forall|k: int| is_first(Self::spec_ids(), extension_id, k) implies k == 5 by {
                    if k < 5 {
                        assert(Self::spec_ids()[k] != extension_id);
                    } else if k > 5 {
                        assert(Self::spec_ids()[5] == extension_id);
                    }
                }
            }
            return Ok(return_ty_to::<F>(call_index));
        }
        if extension_id == G::extension_id() {
            proof {
                assert(is_first(Self::spec_ids(), extension_id, 6));
                assert forall|k: int| is_first(Self::spec_ids(), extension_id, k) implies k == 6 by {
                    if k < 6 {
                        assert(Self::spec_ids()[k] != extension_id);
                    } else if k > 6 {
                        assert(Self::spec_ids()[6] == extension_id);
                    }
                }
            }
            return Ok(return_ty_to::<G>(call_index));
        }
        if extension_id == H::extension_id() {
            proof {
                assert(is_first(Self::spec_ids(), extension_id, 7));
                assert forall|k: int| is_first(Self::spec_ids(), extension_id, k) implies k == 7 by {
                    if k < 7 {
                        assert(Self::spec_ids()[k] != extension_id);
                    } else if k > 7 {
                        assert(Self::spec_ids()[7] == extension_id);
                    }
                }
            }
            return Ok(return_ty_to::<H>(call_index));
        }
        if extension_id == I::extension_id() {
            proof {
                assert(is_first(Self::spec_ids(), extension_id, 8));
                assert forall|k: int| is_first(Self::spec_ids(), extension_id, k) implies k == 8 by {
                    if k < 8 {
                        assert(Self::spec_ids()[k] != extension_id);
                    } else if k > 8 {
                        assert(Self::spec_ids()[8] == extension_id);
                    }
                }
            }
            return Ok(return_ty_to::<I>(call_index));
        }
        if extension_id == J::extension_id() {
            proof {
                assert(is_first(Self::spec_ids(), extension_id, 9));
                assert forall|k: int| is_first(Self::spec_ids(), extension_id, k) implies k == 9 by {
                    if k < 9 {
                        assert(Self::spec_ids()[k] != extension_id);
                    } else if k > 9 {
                        assert(Self::spec_ids()[9] == extension_id);
                    }
                }
            }
            return Ok(return_ty_to::<J>(call_index));
        }
        if extension_id == K::extension_id() {
            proof {
                assert(is_first(Self::spec_ids(), extension_id, 10));
                assert forall|k: int| is_first(Self::spec_ids(), extension_id, k) implies k == 10 by {
                    if k < 10 {
                        assert(Self::spec_ids()[k] != extension_id);
                    } else if k > 10 {
                        assert(Self::spec_ids()[10] == extension_id);
                    }
                }
            }
            return Ok(return_ty_to::<K>(call_index));
        }
        if extension_id == L::extension_id() {
            proof {
                assert(is_first(Self::spec_ids(), extension_id, 11));
                assert forall|k: int| is_first(Self::spec_ids(), extension_id, k) implies k == 11 by {
                    if k < 11 {
                        assert(Self::spec_ids()[k] != extension_id);
                    } else if k > 11 {
                        assert(Self::spec_ids()[11] == extension_id);
                    }
                }
            }
            return Ok(return_ty_to::<L>(call_index));
        }
        if extension_id == M::extension_id() {
            proof {
                assert(is_first(Self::spec_ids(), extension_id, 12));
                assert forall|k: int| is_first(Self::spec_ids(), extension_id, k) implies k == 12 by {
                    if k < 12 {
                        assert(Self::spec_ids()[k] != extension_id);
                    } else if k > 12 {
                        assert(Self::spec_ids()[12] == extension_id);
                    }
                }
            }
            return Ok(return_ty_to::<M>(call_index));
        }
        proof {
            assert(Self::spec_ids()[0] != extension_id);
            assert(Self::spec_ids()[1] != extension_id);
            assert(Self::spec_ids()[2] != extension_id);
            assert(Self::spec_ids()[3] != extension_id);
            assert(Self::spec_ids()[4] != extension_id);
            assert(Self::spec_ids()[5] != extension_id);
            assert(Self::spec_ids()[6] != extension_id);
            assert(Self::spec_ids()[7] != extension_id);
            assert(Self::spec_ids()[8] != extension_id);
            assert(Self::spec_ids()[9] != extension_id);
            assert(Self::spec_ids()[10] != extension_id);
            assert(Self::spec_ids()[11] != extension_id);
            assert(Self::spec_ids()[12] != extension_id);
            assert forall|k: int| !is_first(Self::spec_ids(), extension_id, k) by {}
        }
        Err(ExtensionError::UnsupportedExtension)
    }

    fn method_count(extension_id: ExtensionIdTy) -> (r: Option<usize>) {
        if extension_id == A::extension_id() {
            proof {
                assert(is_first(Self::spec_ids(), extension_id, 0));
                assert forall|k: int| is_first(Self::spec_ids(), extension_id, k) implies k == 0 by {
                    if k < 0 {
                        assert(Self::spec_ids()[k] != extension_id);
                    } else if k > 0 {
                        assert(Self::spec_ids()[0] == extension_id);
                    }
                }
            }
            return Some(method_count_of::<A>());
        }
        if extension_id == B::extension_id() {
            proof {
                assert(is_first(Self::spec_ids(), extension_id, 1));
                assert forall|k: int| is_first(Self::spec_ids(), extension_id, k) implies k == 1 by {
                    if k < 1 {
                        assert(Self::spec_ids()[k] != extension_id);
                    } else if k > 1 {
                        assert(Self::spec_ids()[1] == extension_id);
                    }
                }
            }
            return Some(method_count_of::<B>());
        }
        if extension_id == C::extension_id() {
            proof {
                assert(is_first(Self::spec_ids(), extension_id, 2));
                assert forall|k: int| is_first(Self::spec_ids(), extension_id, k) implies k == 2 by {
                    if k < 2 {
                        assert(Self::spec_ids()[k] != extension_id);
                    } else if k > 2 {
                        assert(Self::spec_ids()[2] == extension_id);
                    }
                }
            }
            return Some(method_count_of::<C>());
        }
        if extension_id == D::extension_id() {
            proof {
                assert(is_first(Self::spec_ids(), extension_id, 3));
                assert forall|k: int| is_first(Self::spec_ids(), extension_id, k) implies k == 3 by {
                    if k < 3 {
                        assert(Self::spec_ids()[k] != extension_id);
                    } else if k > 3 {
                        assert(Self::spec_ids()[3] == extension_id);
                    }
                }
            }
            return Some(method_count_of::<D>());
        }
        if extension_id == E::extension_id() {
            proof {
                assert(is_first(Self::spec_ids(), extension_id, 4));
                assert forall|k: int| is_first(Self::spec_ids(), extension_id, k) implies k == 4 by {
                    if k < 4 {
                        assert(Self::spec_ids()[k] != extension_id);
                    } else if k > 4 {
                        assert(Self::spec_ids()[4] == extension_id);
                    }
                }
            }
            return Some(method_count_of::<E>());
        }
        if extension_id == F::extension_id() {
            proof {
                assert(is_first(Self::spec_ids(), extension_id, 5));
                assert forall|k: int| is_first(Self::spec_ids(), extension_id, k) implies k == 5 by {
                    if k < 5 {
                        assert(Self::spec_ids()[k] != extension_id);
                    } else if k > 5 {
                        assert(Self::spec_ids()[5] == extension_id);
                    }
                }
            }
            return Some(method_count_of::<F>());
        }
        if extension_id == G::extension_id() {
            proof {
                assert(is_first(Self::spec_ids(), extension_id, 6));
                assert forall|k: int| is_first(Self::spec_ids(), extension_id, k) implies k == 6 by {
                    if k < 6 {
                        assert(Self::spec_ids()[k] != extension_id);
                    } else if k > 6 {
                        assert(Self::spec_ids()[6] == extension_id);
                    }
                }
            }
            return Some(method_count_of::<G>());
        }
        if extension_id == H::extension_id() {
            proof {
                assert(is_first(Self::spec_ids(), extension_id, 7));
                assert forall|k: int| is_first(Self::spec_ids(), extension_id, k) implies k == 7 by {
                    if k < 7 {
                        assert(Self::spec_ids()[k] != extension_id);
                    } else if k > 7 {
                        assert(Self::spec_ids()[7] == extension_id);
                    }
                }
            }
            return Some(method_count_of::<H>());
        }
        if extension_id == I::extension_id() {
            proof {
                assert(is_first(Self::spec_ids(), extension_id, 8));
                assert forall|k: int| is_first(Self::spec_ids(), extension_id, k) implies k == 8 by {
                    if k < 8 {
                        assert(Self::spec_ids()[k] != extension_id);
                    } else if k > 8 {
                        assert(Self::spec_ids()[8] == extension_id);
                    }
                }
            }
            return Some(method_count_of::<I>());
        }
        if extension_id == J::extension_id() {
            proof {
                assert(is_first(Self::spec_ids(), extension_id, 9));
                assert forall|k: int| is_first(Self::spec_ids(), extension_id, k) implies k == 9 by {
                    if k < 9 {
                        assert(Self::spec_ids()[k] != extension_id);
                    } else if k > 9 {
                        assert(Self::spec_ids()[9] == extension_id);
                    }
                }
            }
            return Some(method_count_of::<J>());
        }
        if extension_id == K::extension_id() {
            proof {
                assert(is_first(Self::spec_ids(), extension_id, 10));
                assert forall|k: int| is_first(Self::spec_ids(), extension_id, k) implies k == 10 by {
                    if k < 10 {
                        assert(Self::spec_ids()[k] != extension_id);
                    } else if k > 10 {
                        assert(Self::spec_ids()[10] == extension_id);
                    }
                }
            }
            return Some(method_count_of::<K>());
        }
        if extension_id == L::extension_id() {
            proof {
                assert(is_first(Self::spec_ids(), extension_id, 11));
                assert forall|k: int| is_first(Self::spec_ids(), extension_id, k) implies k == 11 by {
                    if k < 11 {
                        assert(Self::spec_ids()[k] != extension_id);
                    } else if k > 11 {
                        assert(Self::spec_ids()[11] == extension_id);
                    }
                }
            }
            return Some(method_count_of::<L>());
        }
        if extension_id == M::extension_id() {
            proof {
                assert(is_first(Self::spec_ids(), extension_id, 12));
                assert forall|k: int| is_first(Self::spec_ids(), extension_id, k) implies k == 12 by {
                    if k < 12 {
                        assert(Self::spec_ids()[k] != extension_id);
                    } else if k > 12 {
                        assert(Self::spec_ids()[12] == extension_id);
                    }
                }
            }
            return Some(method_count_of::<M>());
        }
        proof {
            assert(Self::spec_ids()[0] != extension_id);
            assert(Self::spec_ids()[1] != extension_id);
            assert(Self::spec_ids()[2] != extension_id);
            assert(Self::spec_ids()[3] != extension_id);
            assert(Self::spec_ids()[4] != extension_id);
            assert(Self::spec_ids()[5] != extension_id);
            assert(Self::spec_ids()[6] != extension_id);
            assert(Self::spec_ids()[7] != extension_id);
            assert(Self::spec_ids()[8] != extension_id);
            assert(Self::spec_ids()[9] != extension_id);
            assert(Self::spec_ids()[10] != extension_id);
            assert(Self::spec_ids()[11] != extension_id);
            assert(Self::spec_ids()[12] != extension_id);
            assert forall|k: int| !is_first(Self::spec_ids(), extension_id, k) by {}
        }
        None
    }
}

/// Law: in a host's tuple of thirteen extensions, the extension at each position
/// is the tuple's member at that position: its identifier and its metadata
/// are that member's, and so are the calls it reads from given bytes and
/// what they answer; no other position holds an extension.
pub proof fn law_tuple_members_thirteen<A: CallData, B: CallData, C: CallData, D: CallData, E: CallData, F: CallData, G: CallData, H: CallData, I: CallData, J: CallData, K: CallData, L: CallData, M: CallData>(k: int, data: Seq<u8>, out: Seq<u8>)
    ensures
        <(A, B, C, D, E, F, G, H, I, J, K, L, M) as CallDataTuple>::spec_ids() == seq![A::spec_extension_id(), B::spec_extension_id(), C::spec_extension_id(), D::spec_extension_id(), E::spec_extension_id(), F::spec_extension_id(), G::spec_extension_id(), H::spec_extension_id(), I::spec_extension_id(), J::spec_extension_id(), K::spec_extension_id(), L::spec_extension_id(), M::spec_extension_id()],
        <(A, B, C, D, E, F, G, H, I, J, K, L, M) as CallDataTuple>::spec_metadata() == seq![A::spec_call_metadata(), B::spec_call_metadata(), C::spec_call_metadata(), D::spec_call_metadata(), E::spec_call_metadata(), F::spec_call_metadata(), G::spec_call_metadata(), H::spec_call_metadata(), I::spec_call_metadata(), J::spec_call_metadata(), K::spec_call_metadata(), L::spec_call_metadata(), M::spec_call_metadata()],
        <(A, B, C, D, E, F, G, H, I, J, K, L, M) as CallDataTuple>::spec_decodes(0, data) == call_decodes::<A>(data),
        <(A, B, C, D, E, F, G, H, I, J, K, L, M) as CallDataTuple>::spec_answers(0, data, out) == call_answers::<A>(data, out),
        <(A, B, C, D, E, F, G, H, I, J, K, L, M) as CallDataTuple>::spec_decodes(1, data) == call_decodes::<B>(data),
        <(A, B, C, D, E, F, G, H, I, J, K, L, M) as CallDataTuple>::spec_answers(1, data, out) == call_answers::<B>(data, out),
        <(A, B, C, D, E, F, G, H, I, J, K, L, M) as CallDataTuple>::spec_decodes(2, data) == call_decodes::<C>(data),
        <(A, B, C, D, E, F, G, H, I, J, K, L, M) as CallDataTuple>::spec_answers(2, data, out) == call_answers::<C>(data, out),
        <(A, B, C, D, E, F, G, H, I, J, K, L, M) as CallDataTuple>::spec_decodes(3, data) == call_decodes::<D>(data),
        <(A, B, C, D, E, F, G, H, I, J, K, L, M) as CallDataTuple>::spec_answers(3, data, out) == call_answers::<D>(data, out),
        <(A, B, C, D, E, F, G, H, I, J, K, L, M) as CallDataTuple>::spec_decodes(4, data) == call_decodes::<E>(data),
        <(A, B, C, D, E, F, G, H, I, J, K, L, M) as CallDataTuple>::spec_answers(4, data, out) == call_answers::<E>(data, out),
        <(A, B, C, D, E, F, G, H, I, J, K, L, M) as CallDataTuple>::spec_decodes(5, data) == call_decodes::<F>(data),
        <(A, B, C, D, E, F, G, H, I, J, K, L, M) as CallDataTuple>::spec_answers(5, data, out) == call_answers::<F>(data, out),
        <(A, B, C, D, E, F, G, H, I, J, K, L, M) as CallDataTuple>::spec_decodes(6, data) == call_decodes::<G>(data),
        <(A, B, C, D, E, F, G, H, I, J, K, L, M) as CallDataTuple>::spec_answers(6, data, out) == call_answers::<G>(data, out),
        <(A, B, C, D, E, F, G, H, I, J, K, L, M) as CallDataTuple>::spec_decodes(7, data) == call_decodes::<H>(data),
        <(A, B, C, D, E, F, G, H, I, J, K, L, M) as CallDataTuple>::spec_answers(7, data, out) == call_answers::<H>(data, out),
        <(A, B, C, D, E, F, G, H, I, J, K, L, M) as CallDataTuple>::spec_decodes(8, data) == call_decodes::<I>(data),
        <(A, B, C, D, E, F, G, H, I, J, K, L, M) as CallDataTuple>::spec_answers(8, data, out) == call_answers::<I>(data, out),
        <(A, B, C, D, E, F, G, H, I, J, K, L, M) as CallDataTuple>::spec_decodes(9, data) == call_decodes::<J>(data),
        <(A, B, C, D, E, F, G, H, I, J, K, L, M) as CallDataTuple>::spec_answers(9, data, out) == call_answers::<J>(data, out),
        <(A, B, C, D, E, F, G, H, I, J, K, L, M) as CallDataTuple>::spec_decodes(10, data) == call_decodes::<K>(data),
        <(A, B, C, D, E, F, G, H, I, J, K, L, M) as CallDataTuple>::spec_answers(10, data, out) == call_answers::<K>(data, out),
        <(A, B, C, D, E, F, G, H, I, J, K, L, M) as CallDataTuple>::spec_decodes(11, data) == call_decodes::<L>(data),
        <(A, B, C, D, E, F, G, H, I, J, K, L, M) as CallDataTuple>::spec_answers(11, data, out) == call_answers::<L>(data, out),
        <(A, B, C, D, E, F, G, H, I, J, K, L, M) as CallDataTuple>::spec_decodes(12, data) == call_decodes::<M>(data),
        <(A, B, C, D, E, F, G, H, I, J, K, L, M) as CallDataTuple>::spec_answers(12, data, out) == call_answers::<M>(data, out),
        !(0 <= k < 13) ==> !<(A, B, C, D, E, F, G, H, I, J, K, L, M) as CallDataTuple>::spec_decodes(k, data) && !<(A, B, C, D, E, F, G, H, I, J, K, L, M) as CallDataTuple>::spec_answers(k, data, out),
{
}

impl<A: CallData, B: CallData, C: CallData, D: CallData, E: CallData, F: CallData, G: CallData, H: CallData, I: CallData, J: CallData, K: CallData, L: CallData, M: CallData, N: CallData> CallDataTuple for (A, B, C, D, E, F, G, H, I, J, K, L, M, N) {
    open spec fn spec_ids() -> Seq<ExtensionIdTy> {
        seq![A::spec_extension_id(), B::spec_extension_id(), C::spec_extension_id(), D::spec_extension_id(), E::spec_extension_id(), F::spec_extension_id(), G::spec_extension_id(), H::spec_extension_id(), I::spec_extension_id(), J::spec_extension_id(), K::spec_extension_id(), L::spec_extension_id(), M::spec_extension_id(), N::spec_extension_id()]
    }

    open spec fn spec_metadata() -> Seq<ExtensionView> {
        seq![A::spec_call_metadata(), B::spec_call_metadata(), C::spec_call_metadata(), D::spec_call_metadata(), E::spec_call_metadata(), F::spec_call_metadata(), G::spec_call_metadata(), H::spec_call_metadata(), I::spec_call_metadata(), J::spec_call_metadata(), K::spec_call_metadata(), L::spec_call_metadata(), M::spec_call_metadata(), N::spec_call_metadata()]
    }

    open spec fn spec_decodes(k: int, data: Seq<u8>) -> bool {
        if k == 0 {
            call_decodes::<A>(data)
        } else if k == 1 {
            call_decodes::<B>(data)
        } else if k == 2 {
            call_decodes::<C>(data)
        } else if k == 3 {
            call_decodes::<D>(data)
        } else if k == 4 {
            call_decodes::<E>(data)
        } else if k == 5 {
            call_decodes::<F>(data)
        } else if k == 6 {
            call_decodes::<G>(data)
        } else if k == 7 {
            call_decodes::<H>(data)
        } else if k == 8 {
            call_decodes::<I>(data)
        } else if k == 9 {
            call_decodes::<J>(data)
        } else if k == 10 {
            call_decodes::<K>(data)
        } else if k == 11 {
            call_decodes::<L>(data)
        } else if k == 12 {
            call_decodes::<M>(data)
        } else if k == 13 {
            call_decodes::<N>(data)
        } else {
            false
        }
    }

    open spec fn spec_answers(k: int, data: Seq<u8>, out: Seq<u8>) -> bool {
        if k == 0 {
            call_answers::<A>(data, out)
        } else if k == 1 {
            call_answers::<B>(data, out)
        } else if k == 2 {
            call_answers::<C>(data, out)
        } else if k == 3 {
            call_answers::<D>(data, out)
        } else if k == 4 {
            call_answers::<E>(data, out)
        } else if k == 5 {
            call_answers::<F>(data, out)
        } else if k == 6 {
            call_answers::<G>(data, out)
        } else if k == 7 {
            call_answers::<H>(data, out)
        } else if k == 8 {
            call_answers::<I>(data, out)
        } else if k == 9 {
            call_answers::<J>(data, out)
        } else if k == 10 {
            call_answers::<K>(data, out)
        } else if k == 11 {
            call_answers::<L>(data, out)
        } else if k == 12 {
            call_answers::<M>(data, out)
        } else if k == 13 {
            call_answers::<N>(data, out)
        } else {
            false
        }
    }

    #[allow(unused_variables)]
    fn dispatch(extension_id: ExtensionIdTy, data: &[u8]) -> (r: Result<Vec<u8>, ExtensionError>) {
        if extension_id == A::extension_id() {
            let r = dispatch_to::<A>(data);
            proof {
                assert(is_first(Self::spec_ids(), extension_id, 0));
                assert forall|k: int| is_first(Self::spec_ids(), extension_id, k) implies k == 0 by {
                    if k < 0 {
                        assert(Self::spec_ids()[k] != extension_id);
                    } else if k > 0 {
                        assert(Self::spec_ids()[0] == extension_id);
                    }
                }
            }
            return r;
        }
        if extension_id == B::extension_id() {
            let r = dispatch_to::<B>(data);
            proof {
                assert(is_first(Self::spec_ids(), extension_id, 1));
                assert forall|k: int| is_first(Self::spec_ids(), extension_id, k) implies k == 1 by {
                    if k < 1 {
                        assert(Self::spec_ids()[k] != extension_id);
                    } else if k > 1 {
                        assert(Self::spec_ids()[1] == extension_id);
                    }
                }
            }
            return r;
        }
        if extension_id == C::extension_id() {
            let r = dispatch_to::<C>(data);
            proof {
                assert(is_first(Self::spec_ids(), extension_id, 2));
                assert forall|k: int| is_first(Self::spec_ids(), extension_id, k) implies k == 2 by {
                    if k < 2 {
                        assert(Self::spec_ids()[k] != extension_id);
                    } else if k > 2 {
                        assert(Self::spec_ids()[2] == extension_id);
                    }
                }
            }
            return r;
        }
        if extension_id == D::extension_id() {
            let r = dispatch_to::<D>(data);
            proof {
                assert(is_first(Self::spec_ids(), extension_id, 3));
                assert forall|k: int| is_first(Self::spec_ids(), extension_id, k) implies k == 3 by {
                    if k < 3 {
                        assert(Self::spec_ids()[k] != extension_id);
                    } else if k > 3 {
                        assert(Self::spec_ids()[3] == extension_id);
                    }
                }
            }
            return r;
        }
        if extension_id == E::extension_id() {
            let r = dispatch_to::<E>(data);
            proof {
                assert(is_first(Self::spec_ids(), extension_id, 4));
                assert forall|k: int| is_first(Self::spec_ids(), extension_id, k) implies k == 4 by {
                    if k < 4 {
                        assert(Self::spec_ids()[k] != extension_id);
                    } else if k > 4 {
                        assert(Self::spec_ids()[4] == extension_id);
                    }
                }
            }
            return r;
        }
        if extension_id == F::extension_id() {
            let r = dispatch_to::<F>(data);
            proof {
                assert(is_first(Self::spec_ids(), extension_id, 5));
                assert forall|k: int| is_first(Self::spec_ids(), extension_id, k) implies k == 5 by {
                    if k < 5 {
                        assert(Self::spec_ids()[k] != extension_id);
                    } else if k > 5 {
                        assert(Self::spec_ids()[5] == extension_id);
                    }
                }
            }
            return r;
        }
        if extension_id == G::extension_id() {
            let r = dispatch_to::<G>(data);
            proof {
                assert(is_first(Self::spec_ids(), extension_id, 6));
                assert forall|k: int| is_first(Self::spec_ids(), extension_id, k) implies k == 6 by {
                    if k < 6 {
                        assert(Self::spec_ids()[k] != extension_id);
                    } else if k > 6 {
                        assert(Self::spec_ids()[6] == extension_id);
                    }
                }
            }
            return r;
        }
        if extension_id == H::extension_id() {
            let r = dispatch_to::<H>(data);
            proof {
                assert(is_first(Self::spec_ids(), extension_id, 7));
                assert forall|k: int| is_first(Self::spec_ids(), extension_id, k) implies k == 7 by {
                    if k < 7 {
                        assert(Self::spec_ids()[k] != extension_id);
                    } else if k > 7 {
                        assert(Self::spec_ids()[7] == extension_id);
                    }
                }
            }
            return r;
        }
        if extension_id == I::extension_id() {
            let r = dispatch_to::<I>(data);
            proof {
                assert(is_first(Self::spec_ids(), extension_id, 8));
                assert forall|k: int| is_first(Self::spec_ids(), extension_id, k) implies k == 8 by {
                    if k < 8 {
                        assert(Self::spec_ids()[k] != extension_id);
                    } else if k > 8 {
                        assert(Self::spec_ids()[8] == extension_id);
                    }
                }
            }
            return r;
        }
        if extension_id == J::extension_id() {
            let r = dispatch_to::<J>(data);
            proof {
                assert(is_first(Self::spec_ids(), extension_id, 9));
                assert forall|k: int| is_first(Self::spec_ids(), extension_id, k) implies k == 9 by {
                    if k < 9 {
                        assert(Self::spec_ids()[k] != extension_id);
                    } else if k > 9 {
                        assert(Self::spec_ids()[9] == extension_id);
                    }
                }
            }
            return r;
        }
        if extension_id == K::extension_id() {
            let r = dispatch_to::<K>(data);
            proof {
                assert(is_first(Self::spec_ids(), extension_id, 10));
                assert forall|k: int| is_first(Self::spec_ids(), extension_id, k) implies k == 10 by {
                    if k < 10 {
                        assert(Self::spec_ids()[k] != extension_id);
                    } else if k > 10 {
                        assert(Self::spec_ids()[10] == extension_id);
                    }
                }
            }
            return r;
        }
        if extension_id == L::extension_id() {
            let r = dispatch_to::<L>(data);
            proof {
                assert(is_first(Self::spec_ids(), extension_id, 11));
                assert forall|k: int| is_first(Self::spec_ids(), extension_id, k) implies k == 11 by {
                    if k < 11 {
                        assert(Self::spec_ids()[k] != extension_id);
                    } else if k > 11 {
                        assert(Self::spec_ids()[11] == extension_id);
                    }
                }
            }
            return r;
        }
        if extension_id == M::extension_id() {
            let r = dispatch_to::<M>(data);
            proof {
                assert(is_first(Self::spec_ids(), extension_id, 12));
                assert forall|k: int| is_first(Self::spec_ids(), extension_id, k) implies k == 12 by {
                    if k < 12 {
                        assert(Self::spec_ids()[k] != extension_id);
                    } else if k > 12 {
                        assert(Self::spec_ids()[12] == extension_id);
                    }
                }
            }
            return r;
        }
        if extension_id == N::extension_id() {
            let r = dispatch_to::<N>(data);
            proof {
                assert(is_first(Self::spec_ids(), extension_id, 13));
                assert forall|k: int| is_first(Self::spec_ids(), extension_id, k) implies k == 13 by {
                    if k < 13 {
                        assert(Self::spec_ids()[k] != extension_id);
                    } else if k > 13 {
                        assert(Self::spec_ids()[13] == extension_id);
                    }
                }
            }
            return r;
        }
        proof {
            assert(Self::spec_ids()[0] != extension_id);
            assert(Self::spec_ids()[1] != extension_id);
            assert(Self::spec_ids()[2] != extension_id);
            assert(Self::spec_ids()[3] != extension_id);
            assert(Self::spec_ids()[4] != extension_id);
            assert(Self::spec_ids()[5] != extension_id);
            assert(Self::spec_ids()[6] != extension_id);
            assert(Self::spec_ids()[7] != extension_id);
            assert(Self::spec_ids()[8] != extension_id);
            assert(Self::spec_ids()[9] != extension_id);
            assert(Self::spec_ids()[10] != extension_id);
            assert(Self::spec_ids()[11] != extension_id);
            assert(Self::spec_ids()[12] != extension_id);
            assert(Self::spec_ids()[13] != extension_id);
            assert(!handles(Self::spec_ids(), extension_id)) by {
                assert forall|k: int| 0 <= k < Self::spec_ids().len() implies Self::spec_ids()[k] != extension_id by {}
            }
            assert forall|k: int| !is_first(Self::spec_ids(), extension_id, k) by {}
        }
        Err(ExtensionError::UnsupportedExtension)
    }

    #[allow(unused_variables)]
    fn return_ty(extension_id: ExtensionIdTy, call_index: u32) -> (r: Result<Vec<u8>, ExtensionError>) {
        if extension_id == A::extension_id() {
            proof {
                assert(is_first(Self::spec_ids(), extension_id, 0));
                assert forall|k: int| is_first(Self::spec_ids(), extension_id, k) implies k == 0 by {
                    if k < 0 {
                        assert(Self::spec_ids()[k] != extension_id);
                    } else if k > 0 {
                        assert(Self::spec_ids()[0] == extension_id);
                    }
                }
            }
            return Ok(return_ty_to::<A>(call_index));
        }
        if extension_id == B::extension_id() {
            proof {
                assert(is_first(Self::spec_ids(), extension_id, 1));
                assert forall|k: int| is_first(Self::spec_ids(), extension_id, k) implies k == 1 by {
                    if k < 1 {
                        assert(Self::spec_ids()[k] != extension_id);
                    } else if k > 1 {
                        assert(Self::spec_ids()[1] == extension_id);
                    }
                }
            }
            return Ok(return_ty_to::<B>(call_index));
        }
        if extension_id == C::extension_id() {
            proof {
                assert(is_first(Self::spec_ids(), extension_id, 2));
                assert forall|k: int| is_first(Self::spec_ids(), extension_id, k) implies k == 2 by {
                    if k < 2 {
                        assert(Self::spec_ids()[k] != extension_id);
                    } else if k > 2 {
                        assert(Self::spec_ids()[2] == extension_id);
                    }
                }
            }
            return Ok(return_ty_to::<C>(call_index));
        }
        if extension_id == D::extension_id() {
            proof {
                assert(is_first(Self::spec_ids(), extension_id, 3));
                assert forall|k: int| is_first(Self::spec_ids(), extension_id, k) implies k == 3 by {
                    if k < 3 {
                        assert(Self::spec_ids()[k] != extension_id);
                    } else if k > 3 {
                        assert(Self::spec_ids()[3] == extension_id);
                    }
                }
            }
            return Ok(return_ty_to::<D>(call_index));
        }
        if extension_id == E::extension_id() {
            proof {
                assert(is_first(Self::spec_ids(), extension_id, 4));
                assert forall|k: int| is_first(Self::spec_ids(), extension_id, k) implies k == 4 by {
                    if k < 4 {
                        assert(Self::spec_ids()[k] != extension_id);
                    } else if k > 4 {
                        assert(Self::spec_ids()[4] == extension_id);
                    }
                }
            }
            return Ok(return_ty_to::<E>(call_index));
        }
        if extension_id == F::extension_id() {
            proof {
                assert(is_first(Self::spec_ids(), extension_id, 5));
                assert forall|k: int| is_first(Self::spec_ids(), extension_id, k) implies k == 5 by {
                    if k < 5 {
                        assert(Self::spec_ids()[k] != extension_id);
                    } else if k > 5 {
                        assert(Self::spec_ids()[5] == extension_id);
                    }
                }
            }
            return Ok(return_ty_to::<F>(call_index));
        }
        if extension_id == G::extension_id() {
            proof {
                assert(is_first(Self::spec_ids(), extension_id, 6));
                assert forall|k: int| is_first(Self::spec_ids(), extension_id, k) implies k == 6 by {
                    if k < 6 {
                        assert(Self::spec_ids()[k] != extension_id);
                    } else if k > 6 {
                        assert(Self::spec_ids()[6] == extension_id);
                    }
                }
            }
            return Ok(return_ty_to::<G>(call_index));
        }
        if extension_id == H::extension_id() {
            proof {
                assert(is_first(Self::spec_ids(), extension_id, 7));
                assert forall|k: int| is_first(Self::spec_ids(), extension_id, k) implies k == 7 by {
                    if k < 7 {
                        assert(Self::spec_ids()[k] != extension_id);
                    } else if k > 7 {
                        assert(Self::spec_ids()[7] == extension_id);
                    }
                }
            }
            return Ok(return_ty_to::<H>(call_index));
        }
        if extension_id == I::extension_id() {
            proof {
                assert(is_first(Self::spec_ids(), extension_id, 8));
                assert forall|k: int| is_first(Self::spec_ids(), extension_id, k) implies k == 8 by {
                    if k < 8 {
                        assert(Self::spec_ids()[k] != extension_id);
                    } else if k > 8 {
                        assert(Self::spec_ids()[8] == extension_id);
                    }
                }
            }
            return Ok(return_ty_to::<I>(call_index));
        }
        if extension_id == J::extension_id() {
            proof {
                assert(is_first(Self::spec_ids(), extension_id, 9));
                assert forall|k: int| is_first(Self::spec_ids(), extension_id, k) implies k == 9 by {
                    if k < 9 {
                        assert(Self::spec_ids()[k] != extension_id);
                    } else if k > 9 {
                        assert(Self::spec_ids()[9] == extension_id);
                    }
                }
            }
            return Ok(return_ty_to::<J>(call_index));
        }
        if extension_id == K::extension_id() {
            proof {
                assert(is_first(Self::spec_ids(), extension_id, 10));
                assert forall|k: int| is_first(Self::spec_ids(), extension_id, k) implies k == 10 by {
                    if k < 10 {
                        assert(Self::spec_ids()[k] != extension_id);
                    } else if k > 10 {
                        assert(Self::spec_ids()[10] == extension_id);
                    }
                }
            }
            return Ok(return_ty_to::<K>(call_index));
        }
        if extension_id == L::extension_id() {
            proof {
                assert(is_first(Self::spec_ids(), extension_id, 11));
                assert forall|k: int| is_first(Self::spec_ids(), extension_id, k) implies k == 11 by {
                    if k < 11 {
                        assert(Self::spec_ids()[k] != extension_id);
                    } else if k > 11 {
                        assert(Self::spec_ids()[11] == extension_id);
                    }
                }
            }
            return Ok(return_ty_to::<L>(call_index));
        }
        if extension_id == M::extension_id() {
            proof {
                assert(is_first(Self::spec_ids(), extension_id, 12));
                assert forall|k: int| is_first(Self::spec_ids(), extension_id, k) implies k == 12 by {
                    if k < 12 {
                        assert(Self::spec_ids()[k] != extension_id);
                    } else if k > 12 {
                        assert(Self::spec_ids()[12] == extension_id);
                    }
                }
            }
            return Ok(return_ty_to::<M>(call_index));
        }
        if extension_id == N::extension_id() {
            proof {
                assert(is_first(Self::spec_ids(), extension_id, 13));
                assert forall|k: int| is_first(Self::spec_ids(), extension_id, k) implies k == 13 by {
                    if k < 13 {
                        assert(Self::spec_ids()[k] != extension_id);
                    } else if k > 13 {
                        assert(Self::spec_ids()[13] == extension_id);
                    }
                }
            }
            return Ok(return_ty_to::<N>(call_index));
        }
        proof {
            assert(Self::spec_ids()[0] != extension_id);
            assert(Self::spec_ids()[1] != extension_id);
            assert(Self::spec_ids()[2] != extension_id);
            assert(Self::spec_ids()[3] != extension_id);
            assert(Self::spec_ids()[4] != extension_id);
            assert(Self::spec_ids()[5] != extension_id);
            assert(Self::spec_ids()[6] != extension_id);
            assert(Self::spec_ids()[7] != extension_id);
            assert(Self::spec_ids()[8] != extension_id);
            assert(Self::spec_ids()[9] != extension_id);
            assert(Self::spec_ids()[10] != extension_id);
            assert(Self::spec_ids()[11] != extension_id);
            assert(Self::spec_ids()[12] != extension_id);
            assert(Self::spec_ids()[13] != extension_id);
            assert forall|k: int| !is_first(Self::spec_ids(), extension_id, k) by {}
        }
        Err(ExtensionError::UnsupportedExtension)
    }

    fn method_count(extension_id: ExtensionIdTy) -> (r: Option<usize>) {
        if extension_id == A::extension_id() {
            proof {
                assert(is_first(Self::spec_ids(), extension_id, 0));
                assert forall|k: int| is_first(Self::spec_ids(), extension_id, k) implies k == 0 by {
                    if k < 0 {
                        assert(Self::spec_ids()[k] != extension_id);
                    } else if k > 0 {
                        assert(Self::spec_ids()[0] == extension_id);
                    }
                }
            }
            return Some(method_count_of::<A>());
        }
        if extension_id == B::extension_id() {
            proof {
                assert(is_first(Self::spec_ids(), extension_id, 1));
                assert forall|k: int| is_first(Self::spec_ids(), extension_id, k) implies k == 1 by {
                    if k < 1 {
                        assert(Self::spec_ids()[k] != extension_id);
                    } else if k > 1 {
                        assert(Self::spec_ids()[1] == extension_id);
                    }
                }
            }
            return Some(method_count_of::<B>());
        }
        if extension_id == C::extension_id() {
            proof {
                assert(is_first(Self::spec_ids(), extension_id, 2));
                assert forall|k: int| is_first(Self::spec_ids(), extension_id, k) implies k == 2 by {
                    if k < 2 {
                        assert(Self::spec_ids()[k] != extension_id);
                    } else if k > 2 {
                        assert(Self::spec_ids()[2] == extension_id);
                    }
                }
            }
            return Some(method_count_of::<C>());
        }
        if extension_id == D::extension_id() {
            proof {
                assert(is_first(Self::spec_ids(), extension_id, 3));
                assert forall|k: int| is_first(Self::spec_ids(), extension_id, k) implies k == 3 by {
                    if k < 3 {
                        assert(Self::spec_ids()[k] != extension_id);
                    } else if k > 3 {
                        assert(Self::spec_ids()[3] == extension_id);
                    }
                }
            }
            return Some(method_count_of::<D>());
        }
        if extension_id == E::extension_id() {
            proof {
                assert(is_first(Self::spec_ids(), extension_id, 4));
                assert forall|k: int| is_first(Self::spec_ids(), extension_id, k) implies k == 4 by {
                    if k < 4 {
                        assert(Self::spec_ids()[k] != extension_id);
                    } else if k > 4 {
                        assert(Self::spec_ids()[4] == extension_id);
                    }
                }
            }
            return Some(method_count_of::<E>());
        }
        if extension_id == F::extension_id() {
            proof {
                assert(is_first(Self::spec_ids(), extension_id, 5));
                assert forall|k: int| is_first(Self::spec_ids(), extension_id, k) implies k == 5 by {
                    if k < 5 {
                        assert(Self::spec_ids()[k] != extension_id);
                    } else if k > 5 {
                        assert(Self::spec_ids()[5] == extension_id);
                    }
                }
            }
            return Some(method_count_of::<F>());
        }
        if extension_id == G::extension_id() {
            proof {
                assert(is_first(Self::spec_ids(), extension_id, 6));
                assert forall|k: int| is_first(Self::spec_ids(), extension_id, k) implies k == 6 by {
                    if k < 6 {
                        assert(Self::spec_ids()[k] != extension_id);
                    } else if k > 6 {
                        assert(Self::spec_ids()[6] == extension_id);
                    }
                }
            }
            return Some(method_count_of::<G>());
        }
        if extension_id == H::extension_id() {
            proof {
                assert(is_first(Self::spec_ids(), extension_id, 7));
                assert forall|k: int| is_first(Self::spec_ids(), extension_id, k) implies k == 7 by {
                    if k < 7 {
                        assert(Self::spec_ids()[k] != extension_id);
                    } else if k > 7 {
                        assert(Self::spec_ids()[7] == extension_id);
                    }
                }
            }
            return Some(method_count_of::<H>());
        }
        if extension_id == I::extension_id() {
            proof {
                assert(is_first(Self::spec_ids(), extension_id, 8));
                assert forall|k: int| is_first(Self::spec_ids(), extension_id, k) implies k == 8 by {
                    if k < 8 {
                        assert(Self::spec_ids()[k] != extension_id);
                    } else if k > 8 {
                        assert(Self::spec_ids()[8] == extension_id);
                    }
                }
            }
            return Some(method_count_of::<I>());
        }
        if extension_id == J::extension_id() {
            proof {
                assert(is_first(Self::spec_ids(), extension_id, 9));
                assert forall|k: int| is_first(Self::spec_ids(), extension_id, k) implies k == 9 by {
                    if k < 9 {
                        assert(Self::spec_ids()[k] != extension_id);
                    } else if k > 9 {
                        assert(Self::spec_ids()[9] == extension_id);
                    }
                }
            }
            return Some(method_count_of::<J>());
        }
        if extension_id == K::extension_id() {
            proof {
                assert(is_first(Self::spec_ids(), extension_id, 10));
                assert forall|k: int| is_first(Self::spec_ids(), extension_id, k) implies k == 10 by {
                    if k < 10 {
                        assert(Self::spec_ids()[k] != extension_id);
                    } else if k > 10 {
                        assert(Self::spec_ids()[10] == extension_id);
                    }
                }
            }
            return Some(method_count_of::<K>());
        }
        if extension_id == L::extension_id() {
            proof {
                assert(is_first(Self::spec_ids(), extension_id, 11));
                assert forall|k: int| is_first(Self::spec_ids(), extension_id, k) implies k == 11 by {
                    if k < 11 {
                        assert(Self::spec_ids()[k] != extension_id);
                    } else if k > 11 {
                        assert(Self::spec_ids()[11] == extension_id);
                    }
                }
            }
            return Some(method_count_of::<L>());
        }
        if extension_id == M::extension_id() {
            proof {
                assert(is_first(Self::spec_ids(), extension_id, 12));
                assert forall|k: int| is_first(Self::spec_ids(), extension_id, k) implies k == 12 by {
                    if k < 12 {
                        assert(Self::spec_ids()[k] != extension_id);
                    } else if k > 12 {
                        assert(Self::spec_ids()[12] == extension_id);
                    }
                }
            }
            return Some(method_count_of::<M>());
        }
        if extension_id == N::extension_id() {
            proof {
                assert(is_first(Self::spec_ids(), extension_id, 13));
                assert forall|k: int| is_first(Self::spec_ids(), extension_id, k) implies k == 13 by {
                    if k < 13 {
                        assert(Self::spec_ids()[k] != extension_id);
                    } else if k > 13 {
                        assert(Self::spec_ids()[13] == extension_id);
                    }
                }
            }
            return Some(method_count_of::<N>());
        }
        proof {
            assert(Self::spec_ids()[0] != extension_id);
            assert(Self::spec_ids()[1] != extension_id);
            assert(Self::spec_ids()[2] != extension_id);
            assert(Self::spec_ids()[3] != extension_id);
            assert(Self::spec_ids()[4] != extension_id);
            assert(Self::spec_ids()[5] != extension_id);
            assert(Self::spec_ids()[6] != extension_id);
            assert(Self::spec_ids()[7] != extension_id);
            assert(Self::spec_ids()[8] != extension_id);
            assert(Self::spec_ids()[9] != extension_id);
            assert(Self::spec_ids()[10] != extension_id);
            assert(Self::spec_ids()[11] != extension_id);
            assert(Self::spec_ids()[12] != extension_id);
            assert(Self::spec_ids()[13] != extension_id);
            assert forall|k: int| !is_first(Self::spec_ids(), extension_id, k) by {}
        }
        None
    }
}

/// Law: in a host's tuple of fourteen extensions, the extension at each position
/// is the tuple's member at that position: its identifier and its metadata
/// are that member's, and so are the calls it reads from given bytes and
/// what they answer; no other position holds an extension.
pub proof fn law_tuple_members_fourteen<A: CallData, B: CallData, C: CallData, D: CallData, E: CallData, F: CallData, G: CallData, H: CallData, I: CallData, J: CallData, K: CallData, L: CallData, M: CallData, N: CallData>(k: int, data: Seq<u8>, out: Seq<u8>)
    ensures
        <(A, B, C, D, E, F, G, H, I, J, K, L, M, N) as CallDataTuple>::spec_ids() == seq![A::spec_extension_id(), B::spec_extension_id(), C::spec_extension_id(), D::spec_extension_id(), E::spec_extension_id(), F::spec_extension_id(), G::spec_extension_id(), H::spec_extension_id(), I::spec_extension_id(), J::spec_extension_id(), K::spec_extension_id(), L::spec_extension_id(), M::spec_extension_id(), N::spec_extension_id()],
        <(A, B, C, D, E, F, G, H, I, J, K, L, M, N) as CallDataTuple>::spec_metadata() == seq![A::spec_call_metadata(), B::spec_call_metadata(), C::spec_call_metadata(), D::spec_call_metadata(), E::spec_call_metadata(), F::spec_call_metadata(), G::spec_call_metadata(), H::spec_call_metadata(), I::spec_call_metadata(), J::spec_call_metadata(), K::spec_call_metadata(), L::spec_call_metadata(), M::spec_call_metadata(), N::spec_call_metadata()],
        <(A, B, C, D, E, F, G, H, I, J, K, L, M, N) as CallDataTuple>::spec_decodes(0, data) == call_decodes::<A>(data),
        <(A, B, C, D, E, F, G, H, I, J, K, L, M, N) as CallDataTuple>::spec_answers(0, data, out) == call_answers::<A>(data, out),
        <(A, B, C, D, E, F, G, H, I, J, K, L, M, N) as CallDataTuple>::spec_decodes(1, data) == call_decodes::<B>(data),
        <(A, B, C, D, E, F, G, H, I, J, K, L, M, N) as CallDataTuple>::spec_answers(1, data, out) == call_answers::<B>(data, out),
        <(A, B, C, D, E, F, G, H, I, J, K, L, M, N) as CallDataTuple>::spec_decodes(2, data) == call_decodes::<C>(data),
        <(A, B, C, D, E, F, G, H, I, J, K, L, M, N) as CallDataTuple>::spec_answers(2, data, out) == call_answers::<C>(data, out),
        <(A, B, C, D, E, F, G, H, I, J, K, L, M, N) as CallDataTuple>::spec_decodes(3, data) == call_decodes::<D>(data),
        <(A, B, C, D, E, F, G, H, I, J, K, L, M, N) as CallDataTuple>::spec_answers(3, data, out) == call_answers::<D>(data, out),
        <(A, B, C, D, E, F, G, H, I, J, K, L, M, N) as CallDataTuple>::spec_decodes(4, data) == call_decodes::<E>(data),
        <(A, B, C, D, E, F, G, H, I, J, K, L, M, N) as CallDataTuple>::spec_answers(4, data, out) == call_answers::<E>(data, out),
        <(A, B, C, D, E, F, G, H, I, J, K, L, M, N) as CallDataTuple>::spec_decodes(5, data) == call_decodes::<F>(data),
        <(A, B, C, D, E, F, G, H, I, J, K, L, M, N) as CallDataTuple>::spec_answers(5, data, out) == call_answers::<F>(data, out),
        <(A, B, C, D, E, F, G, H, I, J, K, L, M, N) as CallDataTuple>::spec_decodes(6, data) == call_decodes::<G>(data),
        <(A, B, C, D, E, F, G, H, I, J, K, L, M, N) as CallDataTuple>::spec_answers(6, data, out) == call_answers::<G>(data, out),
        <(A, B, C, D, E, F, G, H, I, J, K, L, M, N) as CallDataTuple>::spec_decodes(7, data) == call_decodes::<H>(data),
        <(A, B, C, D, E, F, G, H, I, J, K, L, M, N) as CallDataTuple>::spec_answers(7, data, out) == call_answers::<H>(data, out),
        <(A, B, C, D, E, F, G, H, I, J, K, L, M, N) as CallDataTuple>::spec_decodes(8, data) == call_decodes::<I>(data),
        <(A, B, C, D, E, F, G, H, I, J, K, L, M, N) as CallDataTuple>::spec_answers(8, data, out) == call_answers::<I>(data, out),
        <(A, B, C, D, E, F, G, H, I, J, K, L, M, N) as CallDataTuple>::spec_decodes(9, data) == call_decodes::<J>(data),
        <(A, B, C, D, E, F, G, H, I, J, K, L, M, N) as CallDataTuple>::spec_answers(9, data, out) == call_answers::<J>(data, out),
        <(A, B, C, D, E, F, G, H, I, J, K, L, M, N) as CallDataTuple>::spec_decodes(10, data) == call_decodes::<K>(data),
        <(A, B, C, D, E, F, G, H, I, J, K, L, M, N) as CallDataTuple>::spec_answers(10, data, out) == call_answers::<K>(data, out),
        <(A, B, C, D, E, F, G, H, I, J, K, L, M, N) as CallDataTuple>::spec_decodes(11, data) == call_decodes::<L>(data),
        <(A, B, C, D, E, F, G, H, I, J, K, L, M, N) as CallDataTuple>::spec_answers(11, data, out) == call_answers::<L>(data, out),
        <(A, B, C, D, E, F, G, H, I, J, K, L, M, N) as CallDataTuple>::spec_decodes(12, data) == call_decodes::<M>(data),
        <(A, B, C, D, E, F, G, H, I, J, K, L, M, N) as CallDataTuple>::spec_answers(12, data, out) == call_answers::<M>(data, out),
        <(A, B, C, D, E, F, G, H, I, J, K, L, M, N) as CallDataTuple>::spec_decodes(13, data) == call_decodes::<N>(data),
        <(A, B, C, D, E, F, G, H, I, J, K, L, M, N) as CallDataTuple>::spec_answers(13, data, out) == call_answers::<N>(data, out),
        !(0 <= k < 14) ==> !<(A, B, C, D, E, F, G, H, I, J, K, L, M, N) as CallDataTuple>::spec_decodes(k, data) && !<(A, B, C, D, E, F, G, H, I, J, K, L, M, N) as CallDataTuple>::spec_answers(k, data, out),
{
}

impl<A: CallData, B: CallData, C: CallData, D: CallData, E: CallData, F: CallData, G: CallData, H: CallData, I: CallData, J: CallData, K: CallData, L: CallData, M: CallData, N: CallData, O: CallData> CallDataTuple for (A, B, C, D, E, F, G, H, I, J, K, L, M, N, O) {
    open spec fn spec_ids() -> Seq<ExtensionIdTy> {
        seq![A::spec_extension_id(), B::spec_extension_id(), C::spec_extension_id(), D::spec_extension_id(), E::spec_extension_id(), F::spec_extension_id(), G::spec_extension_id(), H::spec_extension_id(), I::spec_extension_id(), J::spec_extension_id(), K::spec_extension_id(), L::spec_extension_id(), M::spec_extension_id(), N::spec_extension_id(), O::spec_extension_id()]
    }

    open spec fn spec_metadata() -> Seq<ExtensionView> {
        seq![A::spec_call_metadata(), B::spec_call_metadata(), C::spec_call_metadata(), D::spec_call_metadata(), E::spec_call_metadata(), F::spec_call_metadata(), G::spec_call_metadata(), H::spec_call_metadata(), I::spec_call_metadata(), J::spec_call_metadata(), K::spec_call_metadata(), L::spec_call_metadata(), M::spec_call_metadata(), N::spec_call_metadata(), O::spec_call_metadata()]
    }

    open spec fn spec_decodes(k: int, data: Seq<u8>) -> bool {
        if k == 0 {
            call_decodes::<A>(data)
        } else if k == 1 {
            call_decodes::<B>(data)
        } else if k == 2 {
            call_decodes::<C>(data)
        } else if k == 3 {
            call_decodes::<D>(data)
        } else if k == 4 {
            call_decodes::<E>(data)
        } else if k == 5 {
            call_decodes::<F>(data)
        } else if k == 6 {
            call_decodes::<G>(data)
        } else if k == 7 {
            call_decodes::<H>(data)
        } else if k == 8 {
            call_decodes::<I>(data)
        } else if k == 9 {
            call_decodes::<J>(data)
        } else if k == 10 {
            call_decodes::<K>(data)
        } else if k == 11 {
            call_decodes::<L>(data)
        } else if k == 12 {
            call_decodes::<M>(data)
        } else if k == 13 {
            call_decodes::<N>(data)
        } else if k == 14 {
            call_decodes::<O>(data)
        } else {
            false
        }
    }

    open spec fn spec_answers(k: int, data: Seq<u8>, out: Seq<u8>) -> bool {
        if k == 0 {
            call_answers::<A>(data, out)
        } else if k == 1 {
            call_answers::<B>(data, out)
        } else if k == 2 {
            call_answers::<C>(data, out)
        } else if k == 3 {
            call_answers::<D>(data, out)
        } else if k == 4 {
            call_answers::<E>(data, out)
        } else if k == 5 {
            call_answers::<F>(data, out)
        } else if k == 6 {
            call_answers::<G>(data, out)
        } else if k == 7 {
            call_answers::<H>(data, out)
        } else if k == 8 {
            call_answers::<I>(data, out)
        } else if k == 9 {
            call_answers::<J>(data, out)
        } else if k == 10 {
            call_answers::<K>(data, out)
        } else if k == 11 {
            call_answers::<L>(data, out)
        } else if k == 12 {
            call_answers::<M>(data, out)
        } else if k == 13 {
            call_answers::<N>(data, out)
        } else if k == 14 {
            call_answers::<O>(data, out)
        } else {
            false
        }
    }

    #[allow(unused_variables)]
    fn dispatch(extension_id: ExtensionIdTy, data: &[u8]) -> (r: Result<Vec<u8>, ExtensionError>) {
        if extension_id == A::extension_id() {
            let r = dispatch_to::<A>(data);
            proof {
                assert(is_first(Self::spec_ids(), extension_id, 0));
                assert forall|k: int| is_first(Self::spec_ids(), extension_id, k) implies k == 0 by {
                    if k < 0 {
                        assert(Self::spec_ids()[k] != extension_id);
                    } else if k > 0 {
                        assert(Self::spec_ids()[0] == extension_id);
                    }
                }
            }
            return r;
        }
        if extension_id == B::extension_id() {
            let r = dispatch_to::<B>(data);
            proof {
                assert(is_first(Self::spec_ids(), extension_id, 1));
                assert forall|k: int| is_first(Self::spec_ids(), extension_id, k) implies k == 1 by {
                    if k < 1 {
                        assert(Self::spec_ids()[k] != extension_id);
                    } else if k > 1 {
                        assert(Self::spec_ids()[1] == extension_id);
                    }
                }
            }
            return r;
        }
        if extension_id == C::extension_id() {
            let r = dispatch_to::<C>(data);
            proof {
                assert(is_first(Self::spec_ids(), extension_id, 2));
                assert forall|k: int| is_first(Self::spec_ids(), extension_id, k) implies k == 2 by {
                    if k < 2 {
                        assert(Self::spec_ids()[k] != extension_id);
                    } else if k > 2 {
                        assert(Self::spec_ids()[2] == extension_id);
                    }
                }
            }
            return r;
        }
        if extension_id == D::extension_id() {
            let r = dispatch_to::<D>(data);
            proof {
                assert(is_first(Self::spec_ids(), extension_id, 3));
                assert forall|k: int| is_first(Self::spec_ids(), extension_id, k) implies k == 3 by {
                    if k < 3 {
                        assert(Self::spec_ids()[k] != extension_id);
                    } else if k > 3 {
                        assert(Self::spec_ids()[3] == extension_id);
                    }
                }
            }
            return r;
        }
        if extension_id == E::extension_id() {
            let r = dispatch_to::<E>(data);
            proof {
                assert(is_first(Self::spec_ids(), extension_id, 4));
                assert forall|k: int| is_first(Self::spec_ids(), extension_id, k) implies k == 4 by {
                    if k < 4 {
                        assert(Self::spec_ids()[k] != extension_id);
                    } else if k > 4 {
                        assert(Self::spec_ids()[4] == extension_id);
                    }
                }
            }
            return r;
        }
        if extension_id == F::extension_id() {
            let r = dispatch_to::<F>(data);
            proof {
                assert(is_first(Self::spec_ids(), extension_id, 5));
                assert forall|k: int| is_first(Self::spec_ids(), extension_id, k) implies k == 5 by {
                    if k < 5 {
                        assert(Self::spec_ids()[k] != extension_id);
                    } else if k > 5 {
                        assert(Self::spec_ids()[5] == extension_id);
                    }
                }
            }
            return r;
        }
        if extension_id == G::extension_id() {
            let r = dispatch_to::<G>(data);
            proof {
                assert(is_first(Self::spec_ids(), extension_id, 6));
                assert forall|k: int| is_first(Self::spec_ids(), extension_id, k) implies k == 6 by {
                    if k < 6 {
                        assert(Self::spec_ids()[k] != extension_id);
                    } else if k > 6 {
                        assert(Self::spec_ids()[6] == extension_id);
                    }
                }
            }
            return r;
        }
        if extension_id == H::extension_id() {
            let r = dispatch_to::<H>(data);
            proof {
                assert(is_first(Self::spec_ids(), extension_id, 7));
                assert forall|k: int| is_first(Self::spec_ids(), extension_id, k) implies k == 7 by {
                    if k < 7 {
                        assert(Self::spec_ids()[k] != extension_id);
                    } else if k > 7 {
                        assert(Self::spec_ids()[7] == extension_id);
                    }
                }
            }
            return r;
        }
        if extension_id == I::extension_id() {
            let r = dispatch_to::<I>(data);
            proof {
                assert(is_first(Self::spec_ids(), extension_id, 8));
                assert forall|k: int| is_first(Self::spec_ids(), extension_id, k) implies k == 8 by {
                    if k < 8 {
                        assert(Self::spec_ids()[k] != extension_id);
                    } else if k > 8 {
                        assert(Self::spec_ids()[8] == extension_id);
                    }
                }
            }
            return r;
        }
        if extension_id == J::extension_id() {
            let r = dispatch_to::<J>(data);
            proof {
                assert(is_first(Self::spec_ids(), extension_id, 9));
                assert forall|k: int| is_first(Self::spec_ids(), extension_id, k) implies k == 9 by {
                    if k < 9 {
                        assert(Self::spec_ids()[k] != extension_id);
                    } else if k > 9 {
                        assert(Self::spec_ids()[9] == extension_id);
                    }
                }
            }
            return r;
        }
        if extension_id == K::extension_id() {
            let r = dispatch_to::<K>(data);
            proof {
                assert(is_first(Self::spec_ids(), extension_id, 10));
                assert forall|k: int| is_first(Self::spec_ids(), extension_id, k) implies k == 10 by {
                    if k < 10 {
                        assert(Self::spec_ids()[k] != extension_id);
                    } else if k > 10 {
                        assert(Self::spec_ids()[10] == extension_id);
                    }
                }
            }
            return r;
        }
        if extension_id == L::extension_id() {
            let r = dispatch_to::<L>(data);
            proof {
                assert(is_first(Self::spec_ids(), extension_id, 11));
                assert forall|k: int| is_first(Self::spec_ids(), extension_id, k) implies k == 11 by {
                    if k < 11 {
                        assert(Self::spec_ids()[k] != extension_id);
                    } else if k > 11 {
                        assert(Self::spec_ids()[11] == extension_id);
                    }
                }
            }
            return r;
        }
        if extension_id == M::extension_id() {
            let r = dispatch_to::<M>(data);
            proof {
                assert(is_first(Self::spec_ids(), extension_id, 12));
                assert forall|k: int| is_first(Self::spec_ids(), extension_id, k) implies k == 12 by {
                    if k < 12 {
                        assert(Self::spec_ids()[k] != extension_id);
                    } else if k > 12 {
                        assert(Self::spec_ids()[12] == extension_id);
                    }
                }
            }
            return r;
        }
        if extension_id == N::extension_id() {
            let r = dispatch_to::<N>(data);
            proof {
                assert(is_first(Self::spec_ids(), extension_id, 13));
                assert forall|k: int| is_first(Self::spec_ids(), extension_id, k) implies k == 13 by {
                    if k < 13 {
                        assert(Self::spec_ids()[k] != extension_id);
                    } else if k > 13 {
                        assert(Self::spec_ids()[13] == extension_id);
                    }
                }
            }
            return r;
        }
        if extension_id == O::extension_id() {
            let r = dispatch_to::<O>(data);
            proof {
                assert(is_first(Self::spec_ids(), extension_id, 14));
                assert forall|k: int| is_first(Self::spec_ids(), extension_id, k) implies k == 14 by {
                    if k < 14 {
                        assert(Self::spec_ids()[k] != extension_id);
                    } else if k > 14 {
                        assert(Self::spec_ids()[14] == extension_id);
                    }
                }
            }
            return r;
        }
        proof {
            assert(Self::spec_ids()[0] != extension_id);
            assert(Self::spec_ids()[1] != extension_id);
            assert(Self::spec_ids()[2] != extension_id);
            assert(Self::spec_ids()[3] != extension_id);
            assert(Self::spec_ids()[4] != extension_id);
            assert(Self::spec_ids()[5] != extension_id);
            assert(Self::spec_ids()[6] != extension_id);
            assert(Self::spec_ids()[7] != extension_id);
            assert(Self::spec_ids()[8] != extension_id);
            assert(Self::spec_ids()[9] != extension_id);
            assert(Self::spec_ids()[10] != extension_id);
            assert(Self::spec_ids()[11] != extension_id);
            assert(Self::spec_ids()[12] != extension_id);
            assert(Self::spec_ids()[13] != extension_id);
            assert(Self::spec_ids()[14] != extension_id);
            assert(!handles(Self::spec_ids(), extension_id)) by {
                assert forall|k: int| 0 <= k < Self::spec_ids().len() implies Self::spec_ids()[k] != extension_id by {}
            }
            assert forall|k: int| !is_first(Self::spec_ids(), extension_id, k) by {}
        }
        Err(ExtensionError::UnsupportedExtension)
    }

    #[allow(unused_variables)]
    fn return_ty(extension_id: ExtensionIdTy, call_index: u32) -> (r: Result<Vec<u8>, ExtensionError>) {
        if extension_id == A::extension_id() {
            proof {
                assert(is_first(Self::spec_ids(), extension_id, 0));
                assert forall|k: int| is_first(Self::spec_ids(), extension_id, k) implies k == 0 by {
                    if k < 0 {
                        assert(Self::spec_ids()[k] != extension_id);
                    } else if k > 0 {
                        assert(Self::spec_ids()[0] == extension_id);
                    }
                }
            }
            return Ok(return_ty_to::<A>(call_index));
        }
        if extension_id == B::extension_id() {
            proof {
                assert(is_first(Self::spec_ids(), extension_id, 1));
                assert forall|k: int| is_first(Self::spec_ids(), extension_id, k) implies k == 1 by {
                    if k < 1 {
                        assert(Self::spec_ids()[k] != extension_id);
                    } else if k > 1 {
                        assert(Self::spec_ids()[1] == extension_id);
                    }
                }
            }
            return Ok(return_ty_to::<B>(call_index));
        }
        if extension_id == C::extension_id() {
            proof {
                assert(is_first(Self::spec_ids(), extension_id, 2));
                assert forall|k: int| is_first(Self::spec_ids(), extension_id, k) implies k == 2 by {
                    if k < 2 {
                        assert(Self::spec_ids()[k] != extension_id);
                    } else if k > 2 {
                        assert(Self::spec_ids()[2] == extension_id);
                    }
                }
            }
            return Ok(return_ty_to::<C>(call_index));
        }
        if extension_id == D::extension_id() {
            proof {
                assert(is_first(Self::spec_ids(), extension_id, 3));
                assert forall|k: int| is_first(Self::spec_ids(), extension_id, k) implies k == 3 by {
                    if k < 3 {
                        assert(Self::spec_ids()[k] != extension_id);
                    } else if k > 3 {
                        assert(Self::spec_ids()[3] == extension_id);
                    }
                }
            }
            return Ok(return_ty_to::<D>(call_index));
        }
        if extension_id == E::extension_id() {
            proof {
                assert(is_first(Self::spec_ids(), extension_id, 4));
                assert forall|k: int| is_first(Self::spec_ids(), extension_id, k) implies k == 4 by {
                    if k < 4 {
                        assert(Self::spec_ids()[k] != extension_id);
                    } else if k > 4 {
                        assert(Self::spec_ids()[4] == extension_id);
                    }
                }
            }
            return Ok(return_ty_to::<E>(call_index));
        }
        if extension_id == F::extension_id() {
            proof {
                assert(is_first(Self::spec_ids(), extension_id, 5));
                assert forall|k: int| is_first(Self::spec_ids(), extension_id, k) implies k == 5 by {
                    if k < 5 {
                        assert(Self::spec_ids()[k] != extension_id);
                    } else if k > 5 {
                        assert(Self::spec_ids()[5] == extension_id);
                    }
                }
            }
            return Ok(return_ty_to::<F>(call_index));
        }
        if extension_id == G::extension_id() {
            proof {
                assert(is_first(Self::spec_ids(), extension_id, 6));
                assert forall|k: int| is_first(Self::spec_ids(), extension_id, k) implies k == 6 by {
                    if k < 6 {
                        assert(Self::spec_ids()[k] != extension_id);
                    } else if k > 6 {
                        assert(Self::spec_ids()[6] == extension_id);
                    }
                }
            }
            return Ok(return_ty_to::<G>(call_index));
        }
        if extension_id == H::extension_id() {
            proof {
                assert(is_first(Self::spec_ids(), extension_id, 7));
                assert forall|k: int| is_first(Self::spec_ids(), extension_id, k) implies k == 7 by {
                    if k < 7 {
                        assert(Self::spec_ids()[k] != extension_id);
                    } else if k > 7 {
                        assert(Self::spec_ids()[7] == extension_id);
                    }
                }
            }
            return Ok(return_ty_to::<H>(call_index));
        }
        if extension_id == I::extension_id() {
            proof {
                assert(is_first(Self::spec_ids(), extension_id, 8));
                assert forall|k: int| is_first(Self::spec_ids(), extension_id, k) implies k == 8 by {
                    if k < 8 {
                        assert(Self::spec_ids()[k] != extension_id);
                    } else if k > 8 {
                        assert(Self::spec_ids()[8] == extension_id);
                    }
                }
            }
            return Ok(return_ty_to::<I>(call_index));
        }
        if extension_id == J::extension_id() {
            proof {
                assert(is_first(Self::spec_ids(), extension_id, 9));
                assert forall|k: int| is_first(Self::spec_ids(), extension_id, k) implies k == 9 by {
                    if k < 9 {
                        assert(Self::spec_ids()[k] != extension_id);
                    } else if k > 9 {
                        assert(Self::spec_ids()[9] == extension_id);
                    }
                }
            }
            return Ok(return_ty_to::<J>(call_index));
        }
        if extension_id == K::extension_id() {
            proof {
                assert(is_first(Self::spec_ids(), extension_id, 10));
                assert forall|k: int| is_first(Self::spec_ids(), extension_id, k) implies k == 10 by {
                    if k < 10 {
                        assert(Self::spec_ids()[k] != extension_id);
                    } else if k > 10 {
                        assert(Self::spec_ids()[10] == extension_id);
                    }
                }
            }
            return Ok(return_ty_to::<K>(call_index));
        }
        if extension_id == L::extension_id() {
            proof {
                assert(is_first(Self::spec_ids(), extension_id, 11));
                assert forall|k: int| is_first(Self::spec_ids(), extension_id, k) implies k == 11 by {
                    if k < 11 {
                        assert(Self::spec_ids()[k] != extension_id);
                    } else if k > 11 {
                        assert(Self::spec_ids()[11] == extension_id);
                    }
                }
            }
            return Ok(return_ty_to::<L>(call_index));
        }
        if extension_id == M::extension_id() {
            proof {
                assert(is_first(Self::spec_ids(), extension_id, 12));
                assert forall|k: int| is_first(Self::spec_ids(), extension_id, k) implies k == 12 by {
                    if k < 12 {
                        assert(Self::spec_ids()[k] != extension_id);
                    } else if k > 12 {
                        assert(Self::spec_ids()[12] == extension_id);
                    }
                }
            }
            return Ok(return_ty_to::<M>(call_index));
        }
        if extension_id == N::extension_id() {
            proof {
                assert(is_first(Self::spec_ids(), extension_id, 13));
                assert forall|k: int| is_first(Self::spec_ids(), extension_id, k) implies k == 13 by {
                    if k < 13 {
                        assert(Self::spec_ids()[k] != extension_id);
                    } else if k > 13 {
                        assert(Self::spec_ids()[13] == extension_id);
                    }
                }
            }
            return Ok(return_ty_to::<N>(call_index));
        }
        if extension_id == O::extension_id() {
            proof {
                assert(is_first(Self::spec_ids(), extension_id, 14));
                assert forall|k: int| is_first(Self::spec_ids(), extension_id, k) implies k == 14 by {
                    if k < 14 {
                        assert(Self::spec_ids()[k] != extension_id);
                    } else if k > 14 {
                        assert(Self::spec_ids()[14] == extension_id);
                    }
                }
            }
            return Ok(return_ty_to::<O>(call_index));
        }
        proof {
            assert(Self::spec_ids()[0] != extension_id);
            assert(Self::spec_ids()[1] != extension_id);
            assert(Self::spec_ids()[2] != extension_id);
            assert(Self::spec_ids()[3] != extension_id);
            assert(Self::spec_ids()[4] != extension_id);
            assert(Self::spec_ids()[5] != extension_id);
            assert(Self::spec_ids()[6] != extension_id);
            assert(Self::spec_ids()[7] != extension_id);
            assert(Self::spec_ids()[8] != extension_id);
            assert(Self::spec_ids()[9] != extension_id);
            assert(Self::spec_ids()[10] != extension_id);
            assert(Self::spec_ids()[11] != extension_id);
            assert(Self::spec_ids()[12] != extension_id);
            assert(Self::spec_ids()[13] != extension_id);
            assert(Self::spec_ids()[14] != extension_id);
            assert forall|k: int| !is_first(Self::spec_ids(), extension_id, k) by {}
        }
        Err(ExtensionError::UnsupportedExtension)
    }

    fn method_count(extension_id: ExtensionIdTy) -> (r: Option<usize>) {
        if extension_id == A::extension_id() {
            proof {
                assert(is_first(Self::spec_ids(), extension_id, 0));
                assert forall|k: int| is_first(Self::spec_ids(), extension_id, k) implies k == 0 by {
                    if k < 0 {
                        assert(Self::spec_ids()[k] != extension_id);
                    } else if k > 0 {
                        assert(Self::spec_ids()[0] == extension_id);
                    }
                }
            }
            return Some(method_count_of::<A>());
        }
        if extension_id == B::extension_id() {
            proof {
                assert(is_first(Self::spec_ids(), extension_id, 1));
                assert forall|k: int| is_first(Self::spec_ids(), extension_id, k) implies k == 1 by {
                    if k < 1 {
                        assert(Self::spec_ids()[k] != extension_id);
                    } else if k > 1 {
                        assert(Self::spec_ids()[1] == extension_id);
                    }
                }
            }
            return Some(method_count_of::<B>());
        }
        if extension_id == C::extension_id() {
            proof {
                assert(is_first(Self::spec_ids(), extension_id, 2));
                assert forall|k: int| is_first(Self::spec_ids(), extension_id, k) implies k == 2 by {
                    if k < 2 {
                        assert(Self::spec_ids()[k] != extension_id);
                    } else if k > 2 {
                        assert(Self::spec_ids()[2] == extension_id);
                    }
                }
            }
            return Some(method_count_of::<C>());
        }
        if extension_id == D::extension_id() {
            proof {
                assert(is_first(Self::spec_ids(), extension_id, 3));
                assert forall|k: int| is_first(Self::spec_ids(), extension_id, k) implies k == 3 by {
                    if k < 3 {
                        assert(Self::spec_ids()[k] != extension_id);
                    } else if k > 3 {
                        assert(Self::spec_ids()[3] == extension_id);
                    }
                }
            }
            return Some(method_count_of::<D>());
        }
        if extension_id == E::extension_id() {
            proof {
                assert(is_first(Self::spec_ids(), extension_id, 4));
                assert forall|k: int| is_first(Self::spec_ids(), extension_id, k) implies k == 4 by {
                    if k < 4 {
                        assert(Self::spec_ids()[k] != extension_id);
                    } else if k > 4 {
                        assert(Self::spec_ids()[4] == extension_id);
                    }
                }
            }
            return Some(method_count_of::<E>());
        }
        if extension_id == F::extension_id() {
            proof {
                assert(is_first(Self::spec_ids(), extension_id, 5));
                assert forall|k: int| is_first(Self::spec_ids(), extension_id, k) implies k == 5 by {
                    if k < 5 {
                        assert(Self::spec_ids()[k] != extension_id);
                    } else if k > 5 {
                        assert(Self::spec_ids()[5] == extension_id);
                    }
                }
            }
            return Some(method_count_of::<F>());
        }
        if extension_id == G::extension_id() {
            proof {
                assert(is_first(Self::spec_ids(), extension_id, 6));
                assert forall|k: int| is_first(Self::spec_ids(), extension_id, k) implies k == 6 by {
                    if k < 6 {
                        assert(Self::spec_ids()[k] != extension_id);
                    } else if k > 6 {
                        assert(Self::spec_ids()[6] == extension_id);
                    }
                }
            }
            return Some(method_count_of::<G>());
        }
        if extension_id == H::extension_id() {
            proof {
                assert(is_first(Self::spec_ids(), extension_id, 7));
                assert forall|k: int| is_first(Self::spec_ids(), extension_id, k) implies k == 7 by {
                    if k < 7 {
                        assert(Self::spec_ids()[k] != extension_id);
                    } else if k > 7 {
                        assert(Self::spec_ids()[7] == extension_id);
                    }
                }
            }
            return Some(method_count_of::<H>());
        }
        if extension_id == I::extension_id() {
            proof {
                assert(is_first(Self::spec_ids(), extension_id, 8));
                assert forall|k: int| is_first(Self::spec_ids(), extension_id, k) implies k == 8 by {
                    if k < 8 {
                        assert(Self::spec_ids()[k] != extension_id);
                    } else if k > 8 {
                        assert(Self::spec_ids()[8] == extension_id);
                    }
                }
            }
            return Some(method_count_of::<I>());
        }
        if extension_id == J::extension_id() {
            proof {
                assert(is_first(Self::spec_ids(), extension_id, 9));
                assert forall|k: int| is_first(Self::spec_ids(), extension_id, k) implies k == 9 by {
                    if k < 9 {
                        assert(Self::spec_ids()[k] != extension_id);
                    } else if k > 9 {
                        assert(Self::spec_ids()[9] == extension_id);
                    }
                }
            }
            return Some(method_count_of::<J>());
        }
        if extension_id == K::extension_id() {
            proof {
                assert(is_first(Self::spec_ids(), extension_id, 10));
                assert forall|k: int| is_first(Self::spec_ids(), extension_id, k) implies k == 10 by {
                    if k < 10 {
                        assert(Self::spec_ids()[k] != extension_id);
                    } else if k > 10 {
                        assert(Self::spec_ids()[10] == extension_id);
                    }
                }
            }
            return Some(method_count_of::<K>());
        }
        if extension_id == L::extension_id() {
            proof {
                assert(is_first(Self::spec_ids(), extension_id, 11));
                assert forall|k: int| is_first(Self::spec_ids(), extension_id, k) implies k == 11 by {
                    if k < 11 {
                        assert(Self::spec_ids()[k] != extension_id);
                    } else if k > 11 {
                        assert(Self::spec_ids()[11] == extension_id);
                    }
                }
            }
            return Some(method_count_of::<L>());
        }
        if extension_id == M::extension_id() {
            proof {
                assert(is_first(Self::spec_ids(), extension_id, 12));
                assert forall|k: int| is_first(Self::spec_ids(), extension_id, k) implies k == 12 by {
                    if k < 12 {
                        assert(Self::spec_ids()[k] != extension_id);
                    } else if k > 12 {
                        assert(Self::spec_ids()[12] == extension_id);
                    }
                }
            }
            return Some(method_count_of::<M>());
        }
        if extension_id == N::extension_id() {
            proof {
                assert(is_first(Self::spec_ids(), extension_id, 13));
                assert forall|k: int| is_first(Self::spec_ids(), extension_id, k) implies k == 13 by {
                    if k < 13 {
                        assert(Self::spec_ids()[k] != extension_id);
                    } else if k > 13 {
                        assert(Self::spec_ids()[13] == extension_id);
                    }
                }
            }
            return Some(method_count_of::<N>());
        }
        if extension_id == O::extension_id() {
            proof {
                assert(is_first(Self::spec_ids(), extension_id, 14));
                assert forall|k: int| is_first(Self::spec_ids(), extension_id, k) implies k == 14 by {
                    if k < 14 {
                        assert(Self::spec_ids()[k] != extension_id);
                    } else if k > 14 {
                        assert(Self::spec_ids()[14] == extension_id);
                    }
                }
            }
            return Some(method_count_of::<O>());
        }
        proof {
            assert(Self::spec_ids()[0] != extension_id);
            assert(Self::spec_ids()[1] != extension_id);
            assert(Self::spec_ids()[2] != extension_id);
            assert(Self::spec_ids()[3] != extension_id);
            assert(Self::spec_ids()[4] != extension_id);
            assert(Self::spec_ids()[5] != extension_id);
            assert(Self::spec_ids()[6] != extension_id);
            assert(Self::spec_ids()[7] != extension_id);
            assert(Self::spec_ids()[8] != extension_id);
            assert(Self::spec_ids()[9] != extension_id);
            assert(Self::spec_ids()[10] != extension_id);
            assert(Self::spec_ids()[11] != extension_id);
            assert(Self::spec_ids()[12] != extension_id);
            assert(Self::spec_ids()[13] != extension_id);
            assert(Self::spec_ids()[14] != extension_id);
            assert forall|k: int| !is_first(Self::spec_ids(), extension_id, k) by {}
        }
        None
    }
}

/// Law: in a host's tuple of fifteen extensions, the extension at each position
/// is the tuple's member at that position: its identifier and its metadata
/// are that member's, and so are the calls it reads from given bytes and
/// what they answer; no other position holds an extension.
pub proof fn law_tuple_members_fifteen<A: CallData, B: CallData, C: CallData, D: CallData, E: CallData, F: CallData, G: CallData, H: CallData, I: CallData, J: CallData, K: CallData, L: CallData, M: CallData, N: CallData, O: CallData>(k: int, data: Seq<u8>, out: Seq<u8>)
    ensures
        <(A, B, C, D, E, F, G, H, I, J, K, L, M, N, O) as CallDataTuple>::spec_ids() == seq![A::spec_extension_id(), B::spec_extension_id(), C::spec_extension_id(), D::spec_extension_id(), E::spec_extension_id(), F::spec_extension_id(), G::spec_extension_id(), H::spec_extension_id(), I::spec_extension_id(), J::spec_extension_id(), K::spec_extension_id(), L::spec_extension_id(), M::spec_extension_id(), N::spec_extension_id(), O::spec_extension_id()],
        <(A, B, C, D, E, F, G, H, I, J, K, L, M, N, O) as CallDataTuple>::spec_metadata() == seq![A::spec_call_metadata(), B::spec_call_metadata(), C::spec_call_metadata(), D::spec_call_metadata(), E::spec_call_metadata(), F::spec_call_metadata(), G::spec_call_metadata(), H::spec_call_metadata(), I::spec_call_metadata(), J::spec_call_metadata(), K::spec_call_metadata(), L::spec_call_metadata(), M::spec_call_metadata(), N::spec_call_metadata(), O::spec_call_metadata()],
        <(A, B, C, D, E, F, G, H, I, J, K, L, M, N, O) as CallDataTuple>::spec_decodes(0, data) == call_decodes::<A>(data),
        <(A, B, C, D, E, F, G, H, I, J, K, L, M, N, O) as CallDataTuple>::spec_answers(0, data, out) == call_answers::<A>(data, out),
        <(A, B, C, D, E, F, G, H, I, J, K, L, M, N, O) as CallDataTuple>::spec_decodes(1, data) == call_decodes::<B>(data),
        <(A, B, C, D, E, F, G, H, I, J, K, L, M, N, O) as CallDataTuple>::spec_answers(1, data, out) == call_answers::<B>(data, out),
        <(A, B, C, D, E, F, G, H, I, J, K, L, M, N, O) as CallDataTuple>::spec_decodes(2, data) == call_decodes::<C>(data),
        <(A, B, C, D, E, F, G, H, I, J, K, L, M, N, O) as CallDataTuple>::spec_answers(2, data, out) == call_answers::<C>(data, out),
        <(A, B, C, D, E, F, G, H, I, J, K, L, M, N, O) as CallDataTuple>::spec_decodes(3, data) == call_decodes::<D>(data),
        <(A, B, C, D, E, F, G, H, I, J, K, L, M, N, O) as CallDataTuple>::spec_answers(3, data, out) == call_answers::<D>(data, out),
        <(A, B, C, D, E, F, G, H, I, J, K, L, M, N, O) as CallDataTuple>::spec_decodes(4, data) == call_decodes::<E>(data),
        <(A, B, C, D, E, F, G, H, I, J, K, L, M, N, O) as CallDataTuple>::spec_answers(4, data, out) == call_answers::<E>(data, out),
        <(A, B, C, D, E, F, G, H, I, J, K, L, M, N, O) as CallDataTuple>::spec_decodes(5, data) == call_decodes::<F>(data),
        <(A, B, C, D, E, F, G, H, I, J, K, L, M, N, O) as CallDataTuple>::spec_answers(5, data, out) == call_answers::<F>(data, out),
        <(A, B, C, D, E, F, G, H, I, J, K, L, M, N, O) as CallDataTuple>::spec_decodes(6, data) == call_decodes::<G>(data),
        <(A, B, C, D, E, F, G, H, I, J, K, L, M, N, O) as CallDataTuple>::spec_answers(6, data, out) == call_answers::<G>(data, out),
        <(A, B, C, D, E, F, G, H, I, J, K, L, M, N, O) as CallDataTuple>::spec_decodes(7, data) == call_decodes::<H>(data),
        <(A, B, C, D, E, F, G, H, I, J, K, L, M, N, O) as CallDataTuple>::spec_answers(7, data, out) == call_answers::<H>(data, out),
        <(A, B, C, D, E, F, G, H, I, J, K, L, M, N, O) as CallDataTuple>::spec_decodes(8, data) == call_decodes::<I>(data),
        <(A, B, C, D, E, F, G, H, I, J, K, L, M, N, O) as CallDataTuple>::spec_answers(8, data, out) == call_answers::<I>(data, out),
        <(A, B, C, D, E, F, G, H, I, J, K, L, M, N, O) as CallDataTuple>::spec_decodes(9, data) == call_decodes::<J>(data),
        <(A, B, C, D, E, F, G, H, I, J, K, L, M, N, O) as CallDataTuple>::spec_answers(9, data, out) == call_answers::<J>(data, out),
        <(A, B, C, D, E, F, G, H, I, J, K, L, M, N, O) as CallDataTuple>::spec_decodes(10, data) == call_decodes::<K>(data),
        <(A, B, C, D, E, F, G, H, I, J, K, L, M, N, O) as CallDataTuple>::spec_answers(10, data, out) == call_answers::<K>(data, out),
        <(A, B, C, D, E, F, G, H, I, J, K, L, M, N, O) as CallDataTuple>::spec_decodes(11, data) == call_decodes::<L>(data),
        <(A, B, C, D, E, F, G, H, I, J, K, L, M, N, O) as CallDataTuple>::spec_answers(11, data, out) == call_answers::<L>(data, out),
        <(A, B, C, D, E, F, G, H, I, J, K, L, M, N, O) as CallDataTuple>::spec_decodes(12, data) == call_decodes::<M>(data),
        <(A, B, C, D, E, F, G, H, I, J, K, L, M, N, O) as CallDataTuple>::spec_answers(12, data, out) == call_answers::<M>(data, out),
        <(A, B, C, D, E, F, G, H, I, J, K, L, M, N, O) as CallDataTuple>::spec_decodes(13, data) == call_decodes::<N>(data),
        <(A, B, C, D, E, F, G, H, I, J, K, L, M, N, O) as CallDataTuple>::spec_answers(13, data, out) == call_answers::<N>(data, out),
        <(A, B, C, D, E, F, G, H, I, J, K, L, M, N, O) as CallDataTuple>::spec_decodes(14, data) == call_decodes::<O>(data),
        <(A, B, C, D, E, F, G, H, I, J, K, L, M, N, O) as CallDataTuple>::spec_answers(14, data, out) == call_answers::<O>(data, out),
        !(0 <= k < 15) ==> !<(A, B, C, D, E, F, G, H, I, J, K, L, M, N, O) as CallDataTuple>::spec_decodes(k, data) && !<(A, B, C, D, E, F, G, H, I, J, K, L, M, N, O) as CallDataTuple>::spec_answers(k, data, out),
{
}

impl<A: CallData, B: CallData, C: CallData, D: CallData, E: CallData, F: CallData, G: CallData, H: CallData, I: CallData, J: CallData, K: CallData, L: CallData, M: CallData, N: CallData, O: CallData, P: CallData> CallDataTuple for (A, B, C, D, E, F, G, H, I, J, K, L, M, N, O, P) {
    open spec fn spec_ids() -> Seq<ExtensionIdTy> {
        seq![A::spec_extension_id(), B::spec_extension_id(), C::spec_extension_id(), D::spec_extension_id(), E::spec_extension_id(), F::spec_extension_id(), G::spec_extension_id(), H::spec_extension_id(), I::spec_extension_id(), J::spec_extension_id(), K::spec_extension_id(), L::spec_extension_id(), M::spec_extension_id(), N::spec_extension_id(), O::spec_extension_id(), P::spec_extension_id()]
    }

    open spec fn spec_metadata() -> Seq<ExtensionView> {
        seq![A::spec_call_metadata(), B::spec_call_metadata(), C::spec_call_metadata(), D::spec_call_metadata(), E::spec_call_metadata(), F::spec_call_metadata(), G::spec_call_metadata(), H::spec_call_metadata(), I::spec_call_metadata(), J::spec_call_metadata(), K::spec_call_metadata(), L::spec_call_metadata(), M::spec_call_metadata(), N::spec_call_metadata(), O::spec_call_metadata(), P::spec_call_metadata()]
    }

    open spec fn spec_decodes(k: int, data: Seq<u8>) -> bool {
        if k == 0 {
            call_decodes::<A>(data)
        } else if k == 1 {
            call_decodes::<B>(data)
        } else if k == 2 {
            call_decodes::<C>(data)
        } else if k == 3 {
            call_decodes::<D>(data)
        } else if k == 4 {
            call_decodes::<E>(data)
        } else if k == 5 {
            call_decodes::<F>(data)
        } else if k == 6 {
            call_decodes::<G>(data)
        } else if k == 7 {
            call_decodes::<H>(data)
        } else if k == 8 {
            call_decodes::<I>(data)
        } else if k == 9 {
            call_decodes::<J>(data)
        } else if k == 10 {
            call_decodes::<K>(data)
        } else if k == 11 {
            call_decodes::<L>(data)
        } else if k == 12 {
            call_decodes::<M>(data)
        } else if k == 13 {
            call_decodes::<N>(data)
        } else if k == 14 {
            call_decodes::<O>(data)
        } else if k == 15 {
            call_decodes::<P>(data)
        } else {
            false
        }
    }

    open spec fn spec_answers(k: int, data: Seq<u8>, out: Seq<u8>) -> bool {
        if k == 0 {
            call_answers::<A>(data, out)
        } else if k == 1 {
            call_answers::<B>(data, out)
        } else if k == 2 {
            call_answers::<C>(data, out)
        } else if k == 3 {
            call_answers::<D>(data, out)
        } else if k == 4 {
            call_answers::<E>(data, out)
        } else if k == 5 {
            call_answers::<F>(data, out)
        } else if k == 6 {
            call_answers::<G>(data, out)
        } else if k == 7 {
            call_answers::<H>(data, out)
        } else if k == 8 {
            call_answers::<I>(data, out)
        } else if k == 9 {
            call_answers::<J>(data, out)
        } else if k == 10 {
            call_answers::<K>(data, out)
        } else if k == 11 {
            call_answers::<L>(data, out)
        } else if k == 12 {
            call_answers::<M>(data, out)
        } else if k == 13 {
            call_answers::<N>(data, out)
        } else if k == 14 {
            call_answers::<O>(data, out)
        } else if k == 15 {
            call_answers::<P>(data, out)
        } else {
            false
        }
    }

    #[allow(unused_variables)]
    fn dispatch(extension_id: ExtensionIdTy, data: &[u8]) -> (r: Result<Vec<u8>, ExtensionError>) {
        if extension_id == A::extension_id() {
            let r = dispatch_to::<A>(data);
            proof {
                assert(is_first(Self::spec_ids(), extension_id, 0));
                assert forall|k: int| is_first(Self::spec_ids(), extension_id, k) implies k == 0 by {
                    if k < 0 {
                        assert(Self::spec_ids()[k] != extension_id);
                    } else if k > 0 {
                        assert(Self::spec_ids()[0] == extension_id);
                    }
                }
            }
            return r;
        }
        if extension_id == B::extension_id() {
            let r = dispatch_to::<B>(data);
            proof {
                assert(is_first(Self::spec_ids(), extension_id, 1));
                assert forall|k: int| is_first(Self::spec_ids(), extension_id, k) implies k == 1 by {
                    if k < 1 {
                        assert(Self::spec_ids()[k] != extension_id);
                    } else if k > 1 {
                        assert(Self::spec_ids()[1] == extension_id);
                    }
                }
            }
            return r;
        }
        if extension_id == C::extension_id() {
            let r = dispatch_to::<C>(data);
            proof {
                assert(is_first(Self::spec_ids(), extension_id, 2));
                assert forall|k: int| is_first(Self::spec_ids(), extension_id, k) implies k == 2 by {
                    if k < 2 {
                        assert(Self::spec_ids()[k] != extension_id);
                    } else if k > 2 {
                        assert(Self::spec_ids()[2] == extension_id);
                    }
                }
            }
            return r;
        }
        if extension_id == D::extension_id() {
            let r = dispatch_to::<D>(data);
            proof {
                assert(is_first(Self::spec_ids(), extension_id, 3));
                assert forall|k: int| is_first(Self::spec_ids(), extension_id, k) implies k == 3 by {
                    if k < 3 {
                        assert(Self::spec_ids()[k] != extension_id);
                    } else if k > 3 {
                        assert(Self::spec_ids()[3] == extension_id);
                    }
                }
            }
            return r;
        }
        if extension_id == E::extension_id() {
            let r = dispatch_to::<E>(data);
            proof {
                assert(is_first(Self::spec_ids(), extension_id, 4));
                assert forall|k: int| is_first(Self::spec_ids(), extension_id, k) implies k == 4 by {
                    if k < 4 {
                        assert(Self::spec_ids()[k] != extension_id);
                    } else if k > 4 {
                        assert(Self::spec_ids()[4] == extension_id);
                    }
                }
            }
            return r;
        }
        if extension_id == F::extension_id() {
            let r = dispatch_to::<F>(data);
            proof {
                assert(is_first(Self::spec_ids(), extension_id, 5));
                assert forall|k: int| is_first(Self::spec_ids(), extension_id, k) implies k == 5 by {
                    if k < 5 {
                        assert(Self::spec_ids()[k] != extension_id);
                    } else if k > 5 {
                        assert(Self::spec_ids()[5] == extension_id);
                    }
                }
            }
            return r;
        }
        if extension_id == G::extension_id() {
            let r = dispatch_to::<G>(data);
            proof {
                assert(is_first(Self::spec_ids(), extension_id, 6));
                assert forall|k: int| is_first(Self::spec_ids(), extension_id, k) implies k == 6 by {
                    if k < 6 {
                        assert(Self::spec_ids()[k] != extension_id);
                    } else if k > 6 {
                        assert(Self::spec_ids()[6] == extension_id);
                    }
                }
            }
            return r;
        }
        if extension_id == H::extension_id() {
            let r = dispatch_to::<H>(data);
            proof {
                assert(is_first(Self::spec_ids(), extension_id, 7));
                assert forall|k: int| is_first(Self::spec_ids(), extension_id, k) implies k == 7 by {
                    if k < 7 {
                        assert(Self::spec_ids()[k] != extension_id);
                    } else if k > 7 {
                        assert(Self::spec_ids()[7] == extension_id);
                    }
                }
            }
            return r;
        }
        if extension_id == I::extension_id() {
            let r = dispatch_to::<I>(data);
            proof {
                assert(is_first(Self::spec_ids(), extension_id, 8));
                assert forall|k: int| is_first(Self::spec_ids(), extension_id, k) implies k == 8 by {
                    if k < 8 {
                        assert(Self::spec_ids()[k] != extension_id);
                    } else if k > 8 {
                        assert(Self::spec_ids()[8] == extension_id);
                    }
                }
            }
            return r;
        }
        if extension_id == J::extension_id() {
            let r = dispatch_to::<J>(data);
            proof {
                assert(is_first(Self::spec_ids(), extension_id, 9));
                assert forall|k: int| is_first(Self::spec_ids(), extension_id, k) implies k == 9 by {
                    if k < 9 {
                        assert(Self::spec_ids()[k] != extension_id);
                    } else if k > 9 {
                        assert(Self::spec_ids()[9] == extension_id);
                    }
                }
            }
            return r;
        }
        if extension_id == K::extension_id() {
            let r = dispatch_to::<K>(data);
            proof {
                assert(is_first(Self::spec_ids(), extension_id, 10));
                assert forall|k: int| is_first(Self::spec_ids(), extension_id, k) implies k == 10 by {
                    if k < 10 {
                        assert(Self::spec_ids()[k] != extension_id);
                    } else if k > 10 {
                        assert(Self::spec_ids()[10] == extension_id);
                    }
                }
            }
            return r;
        }
        if extension_id == L::extension_id() {
            let r = dispatch_to::<L>(data);
            proof {
                assert(is_first(Self::spec_ids(), extension_id, 11));
                assert forall|k: int| is_first(Self::spec_ids(), extension_id, k) implies k == 11 by {
                    if k < 11 {
                        assert(Self::spec_ids()[k] != extension_id);
                    } else if k > 11 {
                        assert(Self::spec_ids()[11] == extension_id);
                    }
                }
            }
            return r;
        }
        if extension_id == M::extension_id() {
            let r = dispatch_to::<M>(data);
            proof {
                assert(is_first(Self::spec_ids(), extension_id, 12));
                assert forall|k: int| is_first(Self::spec_ids(), extension_id, k) implies k == 12 by {
                    if k < 12 {
                        assert(Self::spec_ids()[k] != extension_id);
                    } else if k > 12 {
                        assert(Self::spec_ids()[12] == extension_id);
                    }
                }
            }
            return r;
        }
        if extension_id == N::extension_id() {
            let r = dispatch_to::<N>(data);
            proof {
                assert(is_first(Self::spec_ids(), extension_id, 13));
                assert forall|k: int| is_first(Self::spec_ids(), extension_id, k) implies k == 13 by {
                    if k < 13 {
                        assert(Self::spec_ids()[k] != extension_id);
                    } else if k > 13 {
                        assert(Self::spec_ids()[13] == extension_id);
                    }
                }
            }
            return r;
        }
        if extension_id == O::extension_id() {
            let r = dispatch_to::<O>(data);
            proof {
                assert(is_first(Self::spec_ids(), extension_id, 14));
                assert forall|k: int| is_first(Self::spec_ids(), extension_id, k) implies k == 14 by {
                    if k < 14 {
                        assert(Self::spec_ids()[k] != extension_id);
                    } else if k > 14 {
                        assert(Self::spec_ids()[14] == extension_id);
                    }
                }
            }
            return r;
        }
        if extension_id == P::extension_id() {
            let r = dispatch_to::<P>(data);
            proof {
                assert(is_first(Self::spec_ids(), extension_id, 15));
                assert forall|k: int| is_first(Self::spec_ids(), extension_id, k) implies k == 15 by {
                    if k < 15 {
                        assert(Self::spec_ids()[k] != extension_id);
                    } else if k > 15 {
                        assert(Self::spec_ids()[15] == extension_id);
                    }
                }
            }
            return r;
        }
        proof {
            assert(Self::spec_ids()[0] != extension_id);
            assert(Self::spec_ids()[1] != extension_id);
            assert(Self::spec_ids()[2] != extension_id);
            assert(Self::spec_ids()[3] != extension_id);
            assert(Self::spec_ids()[4] != extension_id);
            assert(Self::spec_ids()[5] != extension_id);
            assert(Self::spec_ids()[6] != extension_id);
            assert(Self::spec_ids()[7] != extension_id);
            assert(Self::spec_ids()[8] != extension_id);
            assert(Self::spec_ids()[9] != extension_id);
            assert(Self::spec_ids()[10] != extension_id);
            assert(Self::spec_ids()[11] != extension_id);
            assert(Self::spec_ids()[12] != extension_id);
            assert(Self::spec_ids()[13] != extension_id);
            assert(Self::spec_ids()[14] != extension_id);
            assert(Self::spec_ids()[15] != extension_id);
            assert(!handles(Self::spec_ids(), extension_id)) by {
                assert forall|k: int| 0 <= k < Self::spec_ids().len() implies Self::spec_ids()[k] != extension_id by {}
            }
            assert forall|k: int| !is_first(Self::spec_ids(), extension_id, k) by {}
        }
        Err(ExtensionError::UnsupportedExtension)
    }

    #[allow(unused_variables)]
    fn return_ty(extension_id: ExtensionIdTy, call_index: u32) -> (r: Result<Vec<u8>, ExtensionError>) {
        if extension_id == A::extension_id() {
            proof {
                assert(is_first(Self::spec_ids(), extension_id, 0));
                assert forall|k: int| is_first(Self::spec_ids(), extension_id, k) implies k == 0 by {
                    if k < 0 {
                        assert(Self::spec_ids()[k] != extension_id);
                    } else if k > 0 {
                        assert(Self::spec_ids()[0] == extension_id);
                    }
                }
            }
            return Ok(return_ty_to::<A>(call_index));
        }
        if extension_id == B::extension_id() {
            proof {
                assert(is_first(Self::spec_ids(), extension_id, 1));
                assert forall|k: int| is_first(Self::spec_ids(), extension_id, k) implies k == 1 by {
                    if k < 1 {
                        assert(Self::spec_ids()[k] != extension_id);
                    } else if k > 1 {
                        assert(Self::spec_ids()[1] == extension_id);
                    }
                }
            }
            return Ok(return_ty_to::<B>(call_index));
        }
        if extension_id == C::extension_id() {
            proof {
                assert(is_first(Self::spec_ids(), extension_id, 2));
                assert forall|k: int| is_first(Self::spec_ids(), extension_id, k) implies k == 2 by {
                    if k < 2 {
                        assert(Self::spec_ids()[k] != extension_id);
                    } else if k > 2 {
                        assert(Self::spec_ids()[2] == extension_id);
                    }
                }
            }
            return Ok(return_ty_to::<C>(call_index));
        }
        if extension_id == D::extension_id() {
            proof {
                assert(is_first(Self::spec_ids(), extension_id, 3));
                assert forall|k: int| is_first(Self::spec_ids(), extension_id, k) implies k == 3 by {
                    if k < 3 {
                        assert(Self::spec_ids()[k] != extension_id);
                    } else if k > 3 {
                        assert(Self::spec_ids()[3] == extension_id);
                    }
                }
            }
            return Ok(return_ty_to::<D>(call_index));
        }
        if extension_id == E::extension_id() {
            proof {
                assert(is_first(Self::spec_ids(), extension_id, 4));
                assert forall|k: int| is_first(Self::spec_ids(), extension_id, k) implies k == 4 by {
                    if k < 4 {
                        assert(Self::spec_ids()[k] != extension_id);
                    } else if k > 4 {
                        assert(Self::spec_ids()[4] == extension_id);
                    }
                }
            }
            return Ok(return_ty_to::<E>(call_index));
        }
        if extension_id == F::extension_id() {
            proof {
                assert(is_first(Self::spec_ids(), extension_id, 5));
                assert forall|k: int| is_first(Self::spec_ids(), extension_id, k) implies k == 5 by {
                    if k < 5 {
                        assert(Self::spec_ids()[k] != extension_id);
                    } else if k > 5 {
                        assert(Self::spec_ids()[5] == extension_id);
                    }
                }
            }
            return Ok(return_ty_to::<F>(call_index));
        }
        if extension_id == G::extension_id() {
            proof {
                assert(is_first(Self::spec_ids(), extension_id, 6));
                assert forall|k: int| is_first(Self::spec_ids(), extension_id, k) implies k == 6 by {
                    if k < 6 {
                        assert(Self::spec_ids()[k] != extension_id);
                    } else if k > 6 {
                        assert(Self::spec_ids()[6] == extension_id);
                    }
                }
            }
            return Ok(return_ty_to::<G>(call_index));
        }
        if extension_id == H::extension_id() {
            proof {
                assert(is_first(Self::spec_ids(), extension_id, 7));
                assert forall|k: int| is_first(Self::spec_ids(), extension_id, k) implies k == 7 by {
                    if k < 7 {
                        assert(Self::spec_ids()[k] != extension_id);
                    } else if k > 7 {
                        assert(Self::spec_ids()[7] == extension_id);
                    }
                }
            }
            return Ok(return_ty_to::<H>(call_index));
        }
        if extension_id == I::extension_id() {
            proof {
                assert(is_first(Self::spec_ids(), extension_id, 8));
                assert forall|k: int| is_first(Self::spec_ids(), extension_id, k) implies k == 8 by {
                    if k < 8 {
                        assert(Self::spec_ids()[k] != extension_id);
                    } else if k > 8 {
                        assert(Self::spec_ids()[8] == extension_id);
                    }
                }
            }
            return Ok(return_ty_to::<I>(call_index));
        }
        if extension_id == J::extension_id() {
            proof {
                assert(is_first(Self::spec_ids(), extension_id, 9));
                assert forall|k: int| is_first(Self::spec_ids(), extension_id, k) implies k == 9 by {
                    if k < 9 {
                        assert(Self::spec_ids()[k] != extension_id);
                    } else if k > 9 {
                        assert(Self::spec_ids()[9] == extension_id);
                    }
                }
            }
            return Ok(return_ty_to::<J>(call_index));
        }
        if extension_id == K::extension_id() {
            proof {
                assert(is_first(Self::spec_ids(), extension_id, 10));
                assert forall|k: int| is_first(Self::spec_ids(), extension_id, k) implies k == 10 by {
                    if k < 10 {
                        assert(Self::spec_ids()[k] != extension_id);
                    } else if k > 10 {
                        assert(Self::spec_ids()[10] == extension_id);
                    }
                }
            }
            return Ok(return_ty_to::<K>(call_index));
        }
        if extension_id == L::extension_id() {
            proof {
                assert(is_first(Self::spec_ids(), extension_id, 11));
                assert forall|k: int| is_first(Self::spec_ids(), extension_id, k) implies k == 11 by {
                    if k < 11 {
                        assert(Self::spec_ids()[k] != extension_id);
                    } else if k > 11 {
                        assert(Self::spec_ids()[11] == extension_id);
                    }
                }
            }
            return Ok(return_ty_to::<L>(call_index));
        }
        if extension_id == M::extension_id() {
            proof {
                assert(is_first(Self::spec_ids(), extension_id, 12));
                assert forall|k: int| is_first(Self::spec_ids(), extension_id, k) implies k == 12 by {
                    if k < 12 {
                        assert(Self::spec_ids()[k] != extension_id);
                    } else if k > 12 {
                        assert(Self::spec_ids()[12] == extension_id);
                    }
                }
            }
            return Ok(return_ty_to::<M>(call_index));
        }
        if extension_id == N::extension_id() {
            proof {
                assert(is_first(Self::spec_ids(), extension_id, 13));
                assert forall|k: int| is_first(Self::spec_ids(), extension_id, k) implies k == 13 by {
                    if k < 13 {
                        assert(Self::spec_ids()[k] != extension_id);
                    } else if k > 13 {
                        assert(Self::spec_ids()[13] == extension_id);
                    }
                }
            }
            return Ok(return_ty_to::<N>(call_index));
        }
        if extension_id == O::extension_id() {
            proof {
                assert(is_first(Self::spec_ids(), extension_id, 14));
                assert forall|k: int| is_first(Self::spec_ids(), extension_id, k) implies k == 14 by {
                    if k < 14 {
                        assert(Self::spec_ids()[k] != extension_id);
                    } else if k > 14 {
                        assert(Self::spec_ids()[14] == extension_id);
                    }
                }
            }
            return Ok(return_ty_to::<O>(call_index));
        }
        if extension_id == P::extension_id() {
            proof {
                assert(is_first(Self::spec_ids(), extension_id, 15));
                assert forall|k: int| is_first(Self::spec_ids(), extension_id, k) implies k == 15 by {
                    if k < 15 {
                        assert(Self::spec_ids()[k] != extension_id);
                    } else if k > 15 {
                        assert(Self::spec_ids()[15] == extension_id);
                    }
                }
            }
            return Ok(return_ty_to::<P>(call_index));
        }
        proof {
            assert(Self::spec_ids()[0] != extension_id);
            assert(Self::spec_ids()[1] != extension_id);
            assert(Self::spec_ids()[2] != extension_id);
            assert(Self::spec_ids()[3] != extension_id);
            assert(Self::spec_ids()[4] != extension_id);
            assert(Self::spec_ids()[5] != extension_id);
            assert(Self::spec_ids()[6] != extension_id);
            assert(Self::spec_ids()[7] != extension_id);
            assert(Self::spec_ids()[8] != extension_id);
            assert(Self::spec_ids()[9] != extension_id);
            assert(Self::spec_ids()[10] != extension_id);
            assert(Self::spec_ids()[11] != extension_id);
            assert(Self::spec_ids()[12] != extension_id);
            assert(Self::spec_ids()[13] != extension_id);
            assert(Self::spec_ids()[14] != extension_id);
            assert(Self::spec_ids()[15] != extension_id);
            assert forall|k: int| !is_first(Self::spec_ids(), extension_id, k) by {}
        }
        Err(ExtensionError::UnsupportedExtension)
    }

    fn method_count(extension_id: ExtensionIdTy) -> (r: Option<usize>) {
        if extension_id == A::extension_id() {
            proof {
                assert(is_first(Self::spec_ids(), extension_id, 0));
                assert forall|k: int| is_first(Self::spec_ids(), extension_id, k) implies k == 0 by {
                    if k < 0 {
                        assert(Self::spec_ids()[k] != extension_id);
                    } else if k > 0 {
                        assert(Self::spec_ids()[0] == extension_id);
                    }
                }
            }
            return Some(method_count_of::<A>());
        }
        if extension_id == B::extension_id() {
            proof {
                assert(is_first(Self::spec_ids(), extension_id, 1));
                assert forall|k: int| is_first(Self::spec_ids(), extension_id, k) implies k == 1 by {
                    if k < 1 {
                        assert(Self::spec_ids()[k] != extension_id);
                    } else if k > 1 {
                        assert(Self::spec_ids()[1] == extension_id);
                    }
                }
            }
            return Some(method_count_of::<B>());
        }
        if extension_id == C::extension_id() {
            proof {
                assert(is_first(Self::spec_ids(), extension_id, 2));
                assert forall|k: int| is_first(Self::spec_ids(), extension_id, k) implies k == 2 by {
                    if k < 2 {
                        assert(Self::spec_ids()[k] != extension_id);
                    } else if k > 2 {
                        assert(Self::spec_ids()[2] == extension_id);
                    }
                }
            }
            return Some(method_count_of::<C>());
        }
        if extension_id == D::extension_id() {
            proof {
                assert(is_first(Self::spec_ids(), extension_id, 3));
                assert forall|k: int| is_first(Self::spec_ids(), extension_id, k) implies k == 3 by {
                    if k < 3 {
                        assert(Self::spec_ids()[k] != extension_id);
                    } else if k > 3 {
                        assert(Self::spec_ids()[3] == extension_id);
                    }
                }
            }
            return Some(method_count_of::<D>());
        }
        if extension_id == E::extension_id() {
            proof {
                assert(is_first(Self::spec_ids(), extension_id, 4));
                assert forall|k: int| is_first(Self::spec_ids(), extension_id, k) implies k == 4 by {
                    if k < 4 {
                        assert(Self::spec_ids()[k] != extension_id);
                    } else if k > 4 {
                        assert(Self::spec_ids()[4] == extension_id);
                    }
                }
            }
            return Some(method_count_of::<E>());
        }
        if extension_id == F::extension_id() {
            proof {
                assert(is_first(Self::spec_ids(), extension_id, 5));
                assert forall|k: int| is_first(Self::spec_ids(), extension_id, k) implies k == 5 by {
                    if k < 5 {
                        assert(Self::spec_ids()[k] != extension_id);
                    } else if k > 5 {
                        assert(Self::spec_ids()[5] == extension_id);
                    }
                }
            }
            return Some(method_count_of::<F>());
        }
        if extension_id == G::extension_id() {
            proof {
                assert(is_first(Self::spec_ids(), extension_id, 6));
                assert forall|k: int| is_first(Self::spec_ids(), extension_id, k) implies k == 6 by {
                    if k < 6 {
                        assert(Self::spec_ids()[k] != extension_id);
                    } else if k > 6 {
                        assert(Self::spec_ids()[6] == extension_id);
                    }
                }
            }
            return Some(method_count_of::<G>());
        }
        if extension_id == H::extension_id() {
            proof {
                assert(is_first(Self::spec_ids(), extension_id, 7));
                assert forall|k: int| is_first(Self::spec_ids(), extension_id, k) implies k == 7 by {
                    if k < 7 {
                        assert(Self::spec_ids()[k] != extension_id);
                    } else if k > 7 {
                        assert(Self::spec_ids()[7] == extension_id);
                    }
                }
            }
            return Some(method_count_of::<H>());
        }
        if extension_id == I::extension_id() {
            proof {
                assert(is_first(Self::spec_ids(), extension_id, 8));
                assert forall|k: int| is_first(Self::spec_ids(), extension_id, k) implies k == 8 by {
                    if k < 8 {
                        assert(Self::spec_ids()[k] != extension_id);
                    } else if k > 8 {
                        assert(Self::spec_ids()[8] == extension_id);
                    }
                }
            }
            return Some(method_count_of::<I>());
        }
        if extension_id == J::extension_id() {
            proof {
                assert(is_first(Self::spec_ids(), extension_id, 9));
                assert forall|k: int| is_first(Self::spec_ids(), extension_id, k) implies k == 9 by {
                    if k < 9 {
                        assert(Self::spec_ids()[k] != extension_id);
                    } else if k > 9 {
                        assert(Self::spec_ids()[9] == extension_id);
                    }
                }
            }
            return Some(method_count_of::<J>());
        }
        if extension_id == K::extension_id() {
            proof {
                assert(is_first(Self::spec_ids(), extension_id, 10));
                assert forall|k: int| is_first(Self::spec_ids(), extension_id, k) implies k == 10 by {
                    if k < 10 {
                        assert(Self::spec_ids()[k] != extension_id);
                    } else if k > 10 {
                        assert(Self::spec_ids()[10] == extension_id);
                    }
                }
            }
            return Some(method_count_of::<K>());
        }
        if extension_id == L::extension_id() {
            proof {
                assert(is_first(Self::spec_ids(), extension_id, 11));
                assert forall|k: int| is_first(Self::spec_ids(), extension_id, k) implies k == 11 by {
                    if k < 11 {
                        assert(Self::spec_ids()[k] != extension_id);
                    } else if k > 11 {
                        assert(Self::spec_ids()[11] == extension_id);
                    }
                }
            }
            return Some(method_count_of::<L>());
        }
        if extension_id == M::extension_id() {
            proof {
                assert(is_first(Self::spec_ids(), extension_id, 12));
                assert forall|k: int| is_first(Self::spec_ids(), extension_id, k) implies k == 12 by {
                    if k < 12 {
                        assert(Self::spec_ids()[k] != extension_id);
                    } else if k > 12 {
                        assert(Self::spec_ids()[12] == extension_id);
                    }
                }
            }
            return Some(method_count_of::<M>());
        }
        if extension_id == N::extension_id() {
            proof {
                assert(is_first(Self::spec_ids(), extension_id, 13));
                assert forall|k: int| is_first(Self::spec_ids(), extension_id, k) implies k == 13 by {
                    if k < 13 {
                        assert(Self::spec_ids()[k] != extension_id);
                    } else if k > 13 {
                        assert(Self::spec_ids()[13] == extension_id);
                    }
                }
            }
            return Some(method_count_of::<N>());
        }
        if extension_id == O::extension_id() {
            proof {
                assert(is_first(Self::spec_ids(), extension_id, 14));
                assert forall|k: int| is_first(Self::spec_ids(), extension_id, k) implies k == 14 by {
                    if k < 14 {
                        assert(Self::spec_ids()[k] != extension_id);
                    } else if k > 14 {
                        assert(Self::spec_ids()[14] == extension_id);
                    }
                }
            }
            return Some(method_count_of::<O>());
        }
        if extension_id == P::extension_id() {
            proof {
                assert(is_first(Self::spec_ids(), extension_id, 15));
                assert forall|k: int| is_first(Self::spec_ids(), extension_id, k) implies k == 15 by {
                    if k < 15 {
                        assert(Self::spec_ids()[k] != extension_id);
                    } else if k > 15 {
                        assert(Self::spec_ids()[15] == extension_id);
                    }
                }
            }
            return Some(method_count_of::<P>());
        }
        proof {
            assert(Self::spec_ids()[0] != extension_id);
            assert(Self::spec_ids()[1] != extension_id);
            assert(Self::spec_ids()[2] != extension_id);
            assert(Self::spec_ids()[3] != extension_id);
            assert(Self::spec_ids()[4] != extension_id);
            assert(Self::spec_ids()[5] != extension_id);
            assert(Self::spec_ids()[6] != extension_id);
            assert(Self::spec_ids()[7] != extension_id);
            assert(Self::spec_ids()[8] != extension_id);
            assert(Self::spec_ids()[9] != extension_id);
            assert(Self::spec_ids()[10] != extension_id);
            assert(Self::spec_ids()[11] != extension_id);
            assert(Self::spec_ids()[12] != extension_id);
            assert(Self::spec_ids()[13] != extension_id);
            assert(Self::spec_ids()[14] != extension_id);
            assert(Self::spec_ids()[15] != extension_id);
            assert forall|k: int| !is_first(Self::spec_ids(), extension_id, k) by {}
        }
        None
    }
}

/// Law: in a host's tuple of sixteen extensions, the extension at each position
/// is the tuple's member at that position: its identifier and its metadata
/// are that member's, and so are the calls it reads from given bytes and
/// what they answer; no other position holds an extension.
pub proof fn law_tuple_members_sixteen<A: CallData, B: CallData, C: CallData, D: CallData, E: CallData, F: CallData, G: CallData, H: CallData, I: CallData, J: CallData, K: CallData, L: CallData, M: CallData, N: CallData, O: CallData, P: CallData>(k: int, data: Seq<u8>, out: Seq<u8>)
    ensures
        <(A, B, C, D, E, F, G, H, I, J, K, L, M, N, O, P) as CallDataTuple>::spec_ids() == seq![A::spec_extension_id(), B::spec_extension_id(), C::spec_extension_id(), D::spec_extension_id(), E::spec_extension_id(), F::spec_extension_id(), G::spec_extension_id(), H::spec_extension_id(), I::spec_extension_id(), J::spec_extension_id(), K::spec_extension_id(), L::spec_extension_id(), M::spec_extension_id(), N::spec_extension_id(), O::spec_extension_id(), P::spec_extension_id()],
        <(A, B, C, D, E, F, G, H, I, J, K, L, M, N, O, P) as CallDataTuple>::spec_metadata() == seq![A::spec_call_metadata(), B::spec_call_metadata(), C::spec_call_metadata(), D::spec_call_metadata(), E::spec_call_metadata(), F::spec_call_metadata(), G::spec_call_metadata(), H::spec_call_metadata(), I::spec_call_metadata(), J::spec_call_metadata(), K::spec_call_metadata(), L::spec_call_metadata(), M::spec_call_metadata(), N::spec_call_metadata(), O::spec_call_metadata(), P::spec_call_metadata()],
        <(A, B, C, D, E, F, G, H, I, J, K, L, M, N, O, P) as CallDataTuple>::spec_decodes(0, data) == call_decodes::<A>(data),
        <(A, B, C, D, E, F, G, H, I, J, K, L, M, N, O, P) as CallDataTuple>::spec_answers(0, data, out) == call_answers::<A>(data, out),
        <(A, B, C, D, E, F, G, H, I, J, K, L, M, N, O, P) as CallDataTuple>::spec_decodes(1, data) == call_decodes::<B>(data),
        <(A, B, C, D, E, F, G, H, I, J, K, L, M, N, O, P) as CallDataTuple>::spec_answers(1, data, out) == call_answers::<B>(data, out),
        <(A, B, C, D, E, F, G, H, I, J, K, L, M, N, O, P) as CallDataTuple>::spec_decodes(2, data) == call_decodes::<C>(data),
        <(A, B, C, D, E, F, G, H, I, J, K, L, M, N, O, P) as CallDataTuple>::spec_answers(2, data, out) == call_answers::<C>(data, out),
        <(A, B, C, D, E, F, G, H, I, J, K, L, M, N, O, P) as CallDataTuple>::spec_decodes(3, data) == call_decodes::<D>(data),
        <(A, B, C, D, E, F, G, H, I, J, K, L, M, N, O, P) as CallDataTuple>::spec_answers(3, data, out) == call_answers::<D>(data, out),
        <(A, B, C, D, E, F, G, H, I, J, K, L, M, N, O, P) as CallDataTuple>::spec_decodes(4, data) == call_decodes::<E>(data),
        <(A, B, C, D, E, F, G, H, I, J, K, L, M, N, O, P) as CallDataTuple>::spec_answers(4, data, out) == call_answers::<E>(data, out),
        <(A, B, C, D, E, F, G, H, I, J, K, L, M, N, O, P) as CallDataTuple>::spec_decodes(5, data) == call_decodes::<F>(data),
        <(A, B, C, D, E, F, G, H, I, J, K, L, M, N, O, P) as CallDataTuple>::spec_answers(5, data, out) == call_answers::<F>(data, out),
        <(A, B, C, D, E, F, G, H, I, J, K, L, M, N, O, P) as CallDataTuple>::spec_decodes(6, data) == call_decodes::<G>(data),
        <(A, B, C, D, E, F, G, H, I, J, K, L, M, N, O, P) as CallDataTuple>::spec_answers(6, data, out) == call_answers::<G>(data, out),
        <(A, B, C, D, E, F, G, H, I, J, K, L, M, N, O, P) as CallDataTuple>::spec_decodes(7, data) == call_decodes::<H>(data),
        <(A, B, C, D, E, F, G, H, I, J, K, L, M, N, O, P) as CallDataTuple>::spec_answers(7, data, out) == call_answers::<H>(data, out),
        <(A, B, C, D, E, F, G, H, I, J, K, L, M, N, O, P) as CallDataTuple>::spec_decodes(8, data) == call_decodes::<I>(data),
        <(A, B, C, D, E, F, G, H, I, J, K, L, M, N, O, P) as CallDataTuple>::spec_answers(8, data, out) == call_answers::<I>(data, out),
        <(A, B, C, D, E, F, G, H, I, J, K, L, M, N, O, P) as CallDataTuple>::spec_decodes(9, data) == call_decodes::<J>(data),
        <(A, B, C, D, E, F, G, H, I, J, K, L, M, N, O, P) as CallDataTuple>::spec_answers(9, data, out) == call_answers::<J>(data, out),
        <(A, B, C, D, E, F, G, H, I, J, K, L, M, N, O, P) as CallDataTuple>::spec_decodes(10, data) == call_decodes::<K>(data),
        <(A, B, C, D, E, F, G, H, I, J, K, L, M, N, O, P) as CallDataTuple>::spec_answers(10, data, out) == call_answers::<K>(data, out),
        <(A, B, C, D, E, F, G, H, I, J, K, L, M, N, O, P) as CallDataTuple>::spec_decodes(11, data) == call_decodes::<L>(data),
        <(A, B, C, D, E, F, G, H, I, J, K, L, M, N, O, P) as CallDataTuple>::spec_answers(11, data, out) == call_answers::<L>(data, out),
        <(A, B, C, D, E, F, G, H, I, J, K, L, M, N, O, P) as CallDataTuple>::spec_decodes(12, data) == call_decodes::<M>(data),
        <(A, B, C, D, E, F, G, H, I, J, K, L, M, N, O, P) as CallDataTuple>::spec_answers(12, data, out) == call_answers::<M>(data, out),
        <(A, B, C, D, E, F, G, H, I, J, K, L, M, N, O, P) as CallDataTuple>::spec_decodes(13, data) == call_decodes::<N>(data),
        <(A, B, C, D, E, F, G, H, I, J, K, L, M, N, O, P) as CallDataTuple>::spec_answers(13, data, out) == call_answers::<N>(data, out),
        <(A, B, C, D, E, F, G, H, I, J, K, L, M, N, O, P) as CallDataTuple>::spec_decodes(14, data) == call_decodes::<O>(data),
        <(A, B, C, D, E, F, G, H, I, J, K, L, M, N, O, P) as CallDataTuple>::spec_answers(14, data, out) == call_answers::<O>(data, out),
        <(A, B, C, D, E, F, G, H, I, J, K, L, M, N, O, P) as CallDataTuple>::spec_decodes(15, data) == call_decodes::<P>(data),
        <(A, B, C, D, E, F, G, H, I, J, K, L, M, N, O, P) as CallDataTuple>::spec_answers(15, data, out) == call_answers::<P>(data, out),
        !(0 <= k < 16) ==> !<(A, B, C, D, E, F, G, H, I, J, K, L, M, N, O, P) as CallDataTuple>::spec_decodes(k, data) && !<(A, B, C, D, E, F, G, H, I, J, K, L, M, N, O, P) as CallDataTuple>::spec_answers(k, data, out),
{
}

} // verus!
