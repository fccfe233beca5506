//! How the host answers the two host functions that a query program imports:
//! `host_call`, which carries out an extension call, and `return_ty`, which
//! gives the encoded output type of an extension method.
//!
//! An answer alternates between work on the virtual machine (reading and
//! writing the program's memory, growing its heap) and decisions. The
//! decisions stand here as a state machine: each step takes what the machine
//! reported and gives the next state and the next action. Whatever goes
//! wrong, the program is answered `0`; on success it gets the length (upper
//! half) and the address (lower half) of the result, packed into one `u64`.
use vstd::prelude::*;
use crate::extension::{
    handles, is_first, return_ty_of, CallDataTuple, ExtensionError, ExtensionIdTy, InvokeSource,
    PermController,
};
use crate::protocol::{host_answer_word, law_unpack_pack, pack_halves, packed};
use std::marker::PhantomData;

verus! {

/// What the host asks of the virtual machine next.
pub enum HostAction {
    /// Read `len` bytes of the program's memory at `ptr`.
    ReadMemory { ptr: u32, len: u32 },
    /// Report the current top of the program's heap (`sbrk(0)`).
    HeapTop,
    /// Grow the program's heap by `size` bytes (`sbrk(size)`).
    GrowHeap { size: u32 },
    /// Write `bytes` into the program's memory at `ptr`.
    WriteMemory { ptr: u32, bytes: Vec<u8> },
    /// Return `value` to the program: the host function is done.
    Answer { value: u64 },
}

/// What the virtual machine reports after an action.
pub enum HostEvent {
    /// The outcome of `ReadMemory`.
    MemoryRead(Result<Vec<u8>, polkavm::MemoryAccessError>),
    /// The outcome of `HeapTop`: the top, or `None` where the machine failed.
    HeapTop(Option<u32>),
    /// The outcome of `GrowHeap`: the old top, or `None` where the heap
    /// could not grow.
    HeapGrown(Option<u32>),
    /// The outcome of `WriteMemory`.
    MemoryWritten(Result<(), polkavm::MemoryAccessError>),
}

/// Where the answer to a host function stands.
pub enum HostCallState {
    /// The bytes of an extension call are being read.
    AwaitCall { extension_id: ExtensionIdTy, source: InvokeSource },
    /// The result is known; the top of the heap is asked for.
    AwaitHeapTop { result: Vec<u8> },
    /// The heap is asked to grow, so that the result fits at `ptr`.
    AwaitGrowth { result: Vec<u8>, ptr: u32 },
    /// The result of `len` bytes is being written at `ptr`.
    AwaitWrite { len: usize, ptr: u32 },
    /// The host function is done.
    Done { outcome: Result<u64, ExtensionError> },
}

/// The value a program gets for an outcome: the packed result, or `0` for
/// any error.
pub open spec fn answer_of(outcome: Result<u64, ExtensionError>) -> u64 {
    match outcome {
        Ok(v) => v,
        Err(_) => 0,
    }
}

/// The low 32 bits of a length, as the machine's `u32` interface sees it.
pub open spec fn len32(len: nat) -> u32 {
    (len % 0x1_0000_0000) as u32
}

/// The event that `state` waits for is of the kind of `event`.
pub open spec fn awaits(state: HostCallState, event: HostEvent) -> bool {
    match state {
        HostCallState::AwaitCall { .. } => event is MemoryRead,
        HostCallState::AwaitHeapTop { .. } => event is HeapTop,
        HostCallState::AwaitGrowth { .. } => event is HeapGrown,
        HostCallState::AwaitWrite { .. } => event is MemoryWritten,
        HostCallState::Done { .. } => false,
    }
}

/// `state` is done with `outcome` and `action` returns its answer.
pub open spec fn finished(
    state: HostCallState,
    action: HostAction,
    outcome: Result<u64, ExtensionError>,
) -> bool {
    &&& state == (HostCallState::Done { outcome })
    &&& action == (HostAction::Answer { value: answer_of(outcome) })
}

/// `state` and `action` go on to place `result`: they ask for the top of
/// the heap.
pub open spec fn placing(state: HostCallState, action: HostAction, result: Seq<u8>) -> bool {
    &&& state matches HostCallState::AwaitHeapTop { result: r } && r@ == result
    &&& action is HeapTop
}

/// `state` and `action` follow from dispatching `call` to the extension at
/// position `k` of `C`: either what the call read from `call` answers is
/// placed in the program's memory, or the host function is done with an
/// error that the dispatch may give (a decoding error exactly where that
/// extension reads no call from `call`, else an error of the call itself).
pub open spec fn after_dispatch<C: CallDataTuple>(
    k: int,
    call: Seq<u8>,
    state: HostCallState,
    action: HostAction,
) -> bool {
    ||| {
        &&& state matches HostCallState::AwaitHeapTop { result } && C::spec_decodes(k, call)
            && C::spec_answers(k, call, result@)
        &&& action is HeapTop
    }
    ||| {
        &&& state matches HostCallState::Done { outcome: Err(e) } && (e is DecodeError
            <==> !C::spec_decodes(k, call)) && (e is DecodeError || e is DispatchError)
        &&& action == (HostAction::Answer { value: 0 })
    }
}

/// The state in which a host function answers, and the action it starts
/// with.
pub struct Context<C: CallDataTuple, P: PermController> {
    pub invoke_source: InvokeSource,
    pub marker: PhantomData<(C, P)>,
}

impl<C: CallDataTuple, P: PermController> Context<C, P> {
    /// A context for queries from `invoke_source`.
    pub fn new(invoke_source: InvokeSource) -> (r: Self)
        ensures
            r.invoke_source == invoke_source,
    {
        Context { invoke_source, marker: PhantomData }
    }

    /// Starts `host_call`: the call's bytes are read from the program's
    /// memory.
    pub fn host_call(&self, extension_id: ExtensionIdTy, call_ptr: u32, call_len: u32) -> (r: (
        HostCallState,
        HostAction,
    ))
        ensures
            r.0 == (HostCallState::AwaitCall { extension_id, source: self.invoke_source }),
            r.1 == (HostAction::ReadMemory { ptr: call_ptr, len: call_len }),
    {
        (
            HostCallState::AwaitCall { extension_id, source: self.invoke_source },
            HostAction::ReadMemory { ptr: call_ptr, len: call_len },
        )
    }

    /// Starts `return_ty`: the encoded output type of the method
    /// `call_index` of the first extension with the identifier is placed in
    /// the program's memory; where there is none, the answer is `0`.
    pub fn return_ty(&self, extension_id: ExtensionIdTy, call_index: u32) -> (r: (
        HostCallState,
        HostAction,
    ))
        requires
            forall|k: int|
                is_first(C::spec_ids(), extension_id, k) ==> call_index
                    < C::spec_metadata()[k].methods.len(),
        ensures
            !handles(C::spec_ids(), extension_id) ==> finished(
                r.0,
                r.1,
                Err(ExtensionError::UnsupportedExtension),
            ),
            forall|k: int|
                is_first(C::spec_ids(), extension_id, k) ==> placing(
                    r.0,
                    r.1,
                    return_ty_of(C::spec_metadata(), k, call_index),
                ),
    {
        let r = C::return_ty(extension_id, call_index);
        on_dispatched(r)
    }

    /// Takes the machine's report and gives the next state and action.
    pub fn step(&self, state: HostCallState, event: HostEvent) -> (r: (HostCallState, HostAction))
        requires
            awaits(state, event),
        ensures
            state matches HostCallState::AwaitCall { extension_id, source } ==> {
                match event {
                    HostEvent::MemoryRead(Err(e)) => finished(
                        r.0,
                        r.1,
                        Err(ExtensionError::MemoryAccessError(e)),
                    ),
                    HostEvent::MemoryRead(Ok(call)) => if !P::spec_is_allowed(
                        extension_id,
                        call@,
                        source,
                    ) {
                        finished(r.0, r.1, Err(ExtensionError::PermissionError))
                    } else if !handles(C::spec_ids(), extension_id) {
                        finished(r.0, r.1, Err(ExtensionError::UnsupportedExtension))
                    } else {
                        forall|k: int|
                            is_first(C::spec_ids(), extension_id, k) ==> after_dispatch::<C>(
                                k,
                                call@,
                                r.0,
                                r.1,
                            )
                    },
                    _ => true,
                }
            },
            state matches HostCallState::AwaitHeapTop { result } ==> {
                match event {
                    HostEvent::HeapTop(None) => finished(
                        r.0,
                        r.1,
                        Err(ExtensionError::MemoryAllocationError),
                    ),
                    HostEvent::HeapTop(Some(ptr)) => {
                        &&& r.0 matches HostCallState::AwaitGrowth { result: res, ptr: p } && res@
                            == result@ && p == ptr
                        &&& r.1 == (HostAction::GrowHeap { size: len32(result@.len()) })
                    },
                    _ => true,
                }
            },
            state matches HostCallState::AwaitGrowth { result, ptr } ==> {
                match event {
                    HostEvent::HeapGrown(None) => finished(
                        r.0,
                        r.1,
                        Err(ExtensionError::MemoryAllocationError),
                    ),
                    HostEvent::HeapGrown(Some(_)) => {
                        &&& r.0 == (HostCallState::AwaitWrite { len: result@.len() as usize, ptr })
                        &&& r.1 matches HostAction::WriteMemory { ptr: p, bytes } && p == ptr
                            && bytes@ == result@
                    },
                    _ => true,
                }
            },
            state matches HostCallState::AwaitWrite { len, ptr } ==> {
                match event {
                    HostEvent::MemoryWritten(Err(e)) => finished(
                        r.0,
                        r.1,
                        Err(ExtensionError::MemoryAccessError(e)),
                    ),
                    HostEvent::MemoryWritten(Ok(())) => finished(
                        r.0,
                        r.1,
                        Ok(host_answer_word(ptr, len32(len as nat))),
                    ),
                    _ => true,
                }
            },
    {
        match state {
            HostCallState::AwaitCall { extension_id, source } => match event {
                HostEvent::MemoryRead(read) => self.on_call_read(extension_id, source, read),
                _ => (state, HostAction::Answer { value: 0 }),
            },
            HostCallState::AwaitHeapTop { result } => match event {
                HostEvent::HeapTop(top) => on_heap_top(result, top),
                _ => (HostCallState::AwaitHeapTop { result }, HostAction::Answer { value: 0 }),
            },
            HostCallState::AwaitGrowth { result, ptr } => match event {
                HostEvent::HeapGrown(grown) => on_heap_grown(result, ptr, grown),
                _ => (HostCallState::AwaitGrowth { result, ptr }, HostAction::Answer { value: 0 }),
            },
            HostCallState::AwaitWrite { len, ptr } => match event {
                HostEvent::MemoryWritten(written) => on_written(len, ptr, written),
                _ => (state, HostAction::Answer { value: 0 }),
            },
            HostCallState::Done { outcome } => (
                HostCallState::Done { outcome },
                HostAction::Answer { value: 0 },
            ),
        }
    }

    /// The call's bytes have been read: the permission controller decides
    /// whether the call may be made, and then the call is dispatched.
    fn on_call_read(
        &self,
        extension_id: ExtensionIdTy,
        source: InvokeSource,
        read: Result<Vec<u8>, polkavm::MemoryAccessError>,
    ) -> (r: (HostCallState, HostAction))
        ensures
            read matches Err(e) ==> finished(r.0, r.1, Err(ExtensionError::MemoryAccessError(e))),
            read matches Ok(call) ==> {
                if !P::spec_is_allowed(extension_id, call@, source) {
                    finished(r.0, r.1, Err(ExtensionError::PermissionError))
                } else if !handles(C::spec_ids(), extension_id) {
                    finished(r.0, r.1, Err(ExtensionError::UnsupportedExtension))
                } else {
                    forall|k: int|
                        is_first(C::spec_ids(), extension_id, k) ==> after_dispatch::<C>(
                            k,
                            call@,
                            r.0,
                            r.1,
                        )
                }
            },
    {
        match read {
            Err(e) => done(Err(ExtensionError::MemoryAccessError(e))),
            Ok(call) => {
                if !P::is_allowed(extension_id, call.as_slice(), source) {
                    return done(Err(ExtensionError::PermissionError));
                }
                let d = C::dispatch(extension_id, call.as_slice());
                on_dispatched(d)
            },
        }
    }
}

/// The host function is done with `outcome`.
fn done(outcome: Result<u64, ExtensionError>) -> (r: (HostCallState, HostAction))
    ensures
        finished(r.0, r.1, outcome),
{
    let value: u64 = match &outcome {
        Ok(v) => *v,
        Err(_) => 0,
    };
    (HostCallState::Done { outcome }, HostAction::Answer { value })
}

/// The extension has answered: its result is placed in the program's
/// memory; an error ends the host function.
pub fn on_dispatched(d: Result<Vec<u8>, ExtensionError>) -> (r: (HostCallState, HostAction))
    ensures
        d matches Ok(res) ==> placing(r.0, r.1, res@),
        d matches Err(e) ==> finished(r.0, r.1, Err(e)),
{
    match d {
        Ok(result) => (HostCallState::AwaitHeapTop { result }, HostAction::HeapTop),
        Err(e) => done(Err(e)),
    }
}

/// The top of the heap is known: the heap is asked to grow by the result's
/// length, which the machine takes as a `u32`.
pub fn on_heap_top(result: Vec<u8>, top: Option<u32>) -> (r: (HostCallState, HostAction))
    ensures
        top is None ==> finished(r.0, r.1, Err(ExtensionError::MemoryAllocationError)),
        top matches Some(ptr) ==> {
            &&& r.0 matches HostCallState::AwaitGrowth { result: res, ptr: p } && res@ == result@
                && p == ptr
            &&& r.1 == (HostAction::GrowHeap { size: len32(result@.len()) })
        },
{
    match top {
        None => done(Err(ExtensionError::MemoryAllocationError)),
        Some(ptr) => {
            let size = truncate_len(result.len());
            (HostCallState::AwaitGrowth { result, ptr }, HostAction::GrowHeap { size })
        },
    }
}

/// The heap has grown (or not): the result is written at the old top.
pub fn on_heap_grown(result: Vec<u8>, ptr: u32, grown: Option<u32>) -> (r: (
    HostCallState,
    HostAction,
))
    ensures
        grown is None ==> finished(r.0, r.1, Err(ExtensionError::MemoryAllocationError)),
        grown is Some ==> {
            &&& r.0 == (HostCallState::AwaitWrite { len: result@.len() as usize, ptr })
            &&& r.1 matches HostAction::WriteMemory { ptr: p, bytes } && p == ptr && bytes@
                == result@
        },
{
    match grown {
        None => done(Err(ExtensionError::MemoryAllocationError)),
        Some(_) => {
            let len = result.len();
            (HostCallState::AwaitWrite { len, ptr }, HostAction::WriteMemory { ptr, bytes: result })
        },
    }
}

/// The result has been written (or not): the program gets its length, in
/// the upper half of the answer, and its address, in the lower half.
pub fn on_written(len: usize, ptr: u32, written: Result<(), polkavm::MemoryAccessError>) -> (r: (
    HostCallState,
    HostAction,
))
    ensures
        written matches Err(e) ==> finished(r.0, r.1, Err(ExtensionError::MemoryAccessError(e))),
        written is Ok ==> finished(r.0, r.1, Ok(host_answer_word(ptr, len32(len as nat)))),
{
    match written {
        Err(e) => done(Err(ExtensionError::MemoryAccessError(e))),
        Ok(()) => {
            let v = pack_halves(truncate_len(len), ptr);
            done(Ok(v))
        },
    }
}

/// The low 32 bits of a length.
fn truncate_len(len: usize) -> (r: u32)
    ensures
        r == len32(len as nat),
{
    let r = (len & 0xffff_ffff) as u32;
    assert((len & 0xffff_ffff) as u32 == len as int % 0x1_0000_0000) by (bit_vector);
    r
}

/// Law: once the result is written, the answer carries the result's length
/// in its upper half and its address in its lower half, and the program unpacks them from it (for a result whose
/// length the machine's 32-bit lengths can describe); every error is
/// answered `0`.
pub proof fn law_host_answer(len: usize, ptr: u32, e: ExtensionError)
    requires
        len <= u32::MAX,
    ensures
        answer_of(Ok(host_answer_word(ptr, len32(len as nat)))) as int / 0x1_0000_0000 == len,
        answer_of(Ok(host_answer_word(ptr, len32(len as nat)))) as int % 0x1_0000_0000 == ptr,
        answer_of(Err(e)) == 0,
{
    assert(len32(len as nat) == len);
    law_unpack_pack(len32(len as nat), ptr);
}

} // verus!
