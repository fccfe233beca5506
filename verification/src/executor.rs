//! How a query program is run on the virtual machine: the input goes onto
//! the program's heap, the entry point is called with its address and
//! length, and the `u64` that comes back names the buffer that holds the
//! result.
//!
//! The work on the machine alternates with decisions; the decisions stand
//! here as a state machine, one step per report of the machine.
use vstd::prelude::*;
use crate::host::len32;
use crate::protocol::unpack_halves;

verus! {

/// Why running a query program failed.
#[derive(Debug)]
#[verifier::reject_recursive_types(UserError)]
pub enum XcqExecutorError<UserError> {
    MemoryAllocationError,
    MemoryAccessError(polkavm::MemoryAccessError),
    CallError(polkavm::CallError<UserError>),
    OtherPVMError(polkavm::Error),
}

impl<UserError> From<polkavm::MemoryAccessError> for XcqExecutorError<UserError> {
    fn from(err: polkavm::MemoryAccessError) -> (r: Self) {
        XcqExecutorError::MemoryAccessError(err)
    }
}

impl<UserError> vstd::std_specs::convert::FromSpecImpl<polkavm::MemoryAccessError> for XcqExecutorError<UserError> {
    open spec fn obeys_from_spec() -> bool {
        true
    }

    open spec fn from_spec(err: polkavm::MemoryAccessError) -> Self {
        XcqExecutorError::MemoryAccessError(err)
    }
}

impl<UserError> From<polkavm::Error> for XcqExecutorError<UserError> {
    fn from(err: polkavm::Error) -> (r: Self) {
        XcqExecutorError::OtherPVMError(err)
    }
}

impl<UserError> vstd::std_specs::convert::FromSpecImpl<polkavm::Error> for XcqExecutorError<UserError> {
    open spec fn obeys_from_spec() -> bool {
        true
    }

    open spec fn from_spec(err: polkavm::Error) -> Self {
        XcqExecutorError::OtherPVMError(err)
    }
}

impl<UserError> From<polkavm::CallError<UserError>> for XcqExecutorError<UserError> {
    fn from(err: polkavm::CallError<UserError>) -> (r: Self) {
        XcqExecutorError::CallError(err)
    }
}

impl<UserError> vstd::std_specs::convert::FromSpecImpl<polkavm::CallError<UserError>> for XcqExecutorError<UserError> {
    open spec fn obeys_from_spec() -> bool {
        true
    }

    open spec fn from_spec(err: polkavm::CallError<UserError>) -> Self {
        XcqExecutorError::CallError(err)
    }
}

/// What the executor asks of the virtual machine next.
pub enum ExecAction {
    /// Report the current top of the program's heap (`sbrk(0)`).
    HeapTop,
    /// Grow the program's heap by `size` bytes (`sbrk(size)`).
    GrowHeap { size: u32 },
    /// Write the input into the program's memory at `ptr`.
    WriteInput { ptr: u32 },
    /// Call the entry point with the input's address and length.
    Call { ptr: u32, len: u32 },
    /// Read `len` bytes of the program's memory at `ptr`.
    ReadResult { ptr: u32, len: u32 },
    /// Nothing more: the run is done.
    Finish,
}

/// What the virtual machine reports after an action.
#[verifier::reject_recursive_types(UserError)]
pub enum ExecEvent<UserError> {
    /// The top of the heap, before anything was allocated.
    HeapTop(u32),
    /// The outcome of `GrowHeap`: the old top, `None` where the heap limit
    /// was reached.
    HeapGrown(Result<Option<u32>, polkavm::Error>),
    /// The outcome of `WriteInput`.
    InputWritten(Result<(), polkavm::MemoryAccessError>),
    /// The outcome of `Call`: what the entry point returned.
    Called(Result<u64, polkavm::CallError<UserError>>),
    /// The outcome of `ReadResult`.
    ResultRead(Result<Vec<u8>, polkavm::MemoryAccessError>),
}

/// Where a run stands.
#[verifier::reject_recursive_types(UserError)]
pub enum ExecState<UserError> {
    AwaitHeapTop { len: u32 },
    AwaitGrowth { len: u32, ptr: u32 },
    AwaitWrite { len: u32, ptr: u32 },
    AwaitCall,
    AwaitResult,
    Done { outcome: Result<Vec<u8>, XcqExecutorError<UserError>> },
}

/// The event that `state` waits for is of the kind of `event`.
pub open spec fn exec_awaits<E>(state: ExecState<E>, event: ExecEvent<E>) -> bool {
    match state {
        ExecState::AwaitHeapTop { .. } => event is HeapTop,
        ExecState::AwaitGrowth { .. } => event is HeapGrown,
        ExecState::AwaitWrite { .. } => event is InputWritten,
        ExecState::AwaitCall => event is Called,
        ExecState::AwaitResult => event is ResultRead,
        ExecState::Done { .. } => false,
    }
}

/// `state` is done with the error `e`.
pub open spec fn failed<E>(state: ExecState<E>, action: ExecAction, e: XcqExecutorError<E>) -> bool {
    &&& state matches ExecState::Done { outcome: Err(f) } && f == e
    &&& action is Finish
}

/// Starts a run on an input of `input_len` bytes: an empty input is passed
/// as the address `0`; any other is first placed on the program's heap.
pub fn start_execution<E>(input_len: usize) -> (r: (ExecState<E>, ExecAction))
    ensures
        input_len == 0 ==> r.0 is AwaitCall && r.1 == (ExecAction::Call { ptr: 0, len: 0 }),
        input_len != 0 ==> r.0 == (ExecState::<E>::AwaitHeapTop { len: len32(input_len as nat) })
            && r.1 is HeapTop,
{
    if input_len == 0 {
        (ExecState::AwaitCall, ExecAction::Call { ptr: 0, len: 0 })
    } else {
        let len = (input_len & 0xffff_ffff) as u32;
        assert((input_len & 0xffff_ffff) as u32 == input_len as int % 0x1_0000_0000)
            by (bit_vector);
        (ExecState::AwaitHeapTop { len }, ExecAction::HeapTop)
    }
}

/// Takes the machine's report and gives the next state and action.
pub fn exec_step<E>(state: ExecState<E>, event: ExecEvent<E>) -> (r: (ExecState<E>, ExecAction))
    requires
        exec_awaits(state, event),
    ensures
        state matches ExecState::AwaitHeapTop { len } ==> (event matches ExecEvent::HeapTop(ptr)
            ==> r.0 == (ExecState::<E>::AwaitGrowth { len, ptr }) && r.1 == (ExecAction::GrowHeap {
            size: len,
        })),
        state matches ExecState::AwaitGrowth { len, ptr } ==> {
            match event {
                ExecEvent::HeapGrown(Ok(Some(_))) => r.0 == (ExecState::<E>::AwaitWrite { len, ptr })
                    && r.1 == (ExecAction::WriteInput { ptr }),
                ExecEvent::HeapGrown(_) => failed(r.0, r.1, XcqExecutorError::MemoryAllocationError),
                _ => true,
            }
        },
        state matches ExecState::AwaitWrite { len, ptr } ==> {
            match event {
                ExecEvent::InputWritten(Ok(())) => r.0 is AwaitCall && r.1 == (ExecAction::Call {
                    ptr,
                    len,
                }),
                ExecEvent::InputWritten(Err(e)) => failed(
                    r.0,
                    r.1,
                    XcqExecutorError::MemoryAccessError(e),
                ),
                _ => true,
            }
        },
        state is AwaitCall ==> {
            match event {
                ExecEvent::Called(Ok(res)) => r.0 is AwaitResult && r.1 == (ExecAction::ReadResult {
                    ptr: (res as int / 0x1_0000_0000) as u32,
                    len: (res as int % 0x1_0000_0000) as u32,
                }),
                ExecEvent::Called(Err(e)) => failed(r.0, r.1, XcqExecutorError::CallError(e)),
                _ => true,
            }
        },
        state is AwaitResult ==> {
            match event {
                ExecEvent::ResultRead(Ok(v)) => r.0 matches ExecState::Done { outcome: Ok(w) } && w@
                    == v@ && r.1 is Finish,
                ExecEvent::ResultRead(Err(e)) => failed(
                    r.0,
                    r.1,
                    XcqExecutorError::MemoryAccessError(e),
                ),
                _ => true,
            }
        },
{
    match state {
        ExecState::AwaitHeapTop { len } => match event {
            ExecEvent::HeapTop(ptr) => (
                ExecState::AwaitGrowth { len, ptr },
                ExecAction::GrowHeap { size: len },
            ),
            _ => (state, ExecAction::Finish),
        },
        ExecState::AwaitGrowth { len, ptr } => match event {
            ExecEvent::HeapGrown(Ok(Some(_))) => (
                ExecState::AwaitWrite { len, ptr },
                ExecAction::WriteInput { ptr },
            ),
            ExecEvent::HeapGrown(_) => (
                ExecState::Done { outcome: Err(XcqExecutorError::MemoryAllocationError) },
                ExecAction::Finish,
            ),
            _ => (state, ExecAction::Finish),
        },
        ExecState::AwaitWrite { len, ptr } => match event {
            ExecEvent::InputWritten(Ok(())) => (ExecState::AwaitCall, ExecAction::Call { ptr, len }),
            ExecEvent::InputWritten(Err(e)) => (
                ExecState::Done { outcome: Err(XcqExecutorError::MemoryAccessError(e)) },
                ExecAction::Finish,
            ),
            _ => (state, ExecAction::Finish),
        },
        ExecState::AwaitCall => match event {
            ExecEvent::Called(Ok(res)) => {
                let (ptr, len) = unpack_halves(res);
                (ExecState::AwaitResult, ExecAction::ReadResult { ptr, len })
            },
            ExecEvent::Called(Err(e)) => (
                ExecState::Done { outcome: Err(XcqExecutorError::CallError(e)) },
                ExecAction::Finish,
            ),
            _ => (ExecState::AwaitCall, ExecAction::Finish),
        },
        ExecState::AwaitResult => match event {
            ExecEvent::ResultRead(Ok(v)) => (ExecState::Done { outcome: Ok(v) }, ExecAction::Finish),
            ExecEvent::ResultRead(Err(e)) => (
                ExecState::Done { outcome: Err(XcqExecutorError::MemoryAccessError(e)) },
                ExecAction::Finish,
            ),
            _ => (ExecState::AwaitResult, ExecAction::Finish),
        },
        ExecState::Done { outcome } => (ExecState::Done { outcome }, ExecAction::Finish),
    }
}

} // verus!
