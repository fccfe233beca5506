use xcq::executor::{exec_step, start_execution, ExecAction, ExecEvent, ExecState, XcqExecutorError};

type State = ExecState<()>;

#[test]
fn empty_input_is_passed_as_address_zero() {
    let (state, action): (State, ExecAction) = start_execution(0);
    assert!(matches!(state, ExecState::AwaitCall));
    assert!(matches!(action, ExecAction::Call { ptr: 0, len: 0 }));
}

#[test]
fn input_goes_on_the_heap_before_the_call() {
    let (state, action): (State, ExecAction) = start_execution(5);
    assert!(matches!(action, ExecAction::HeapTop));
    let (state, action) = exec_step(state, ExecEvent::HeapTop(0x3_0000));
    assert!(matches!(action, ExecAction::GrowHeap { size: 5 }));
    let (state, action) = exec_step(state, ExecEvent::HeapGrown(Ok(Some(0x3_0000))));
    assert!(matches!(action, ExecAction::WriteInput { ptr: 0x3_0000 }));
    let (state, action) = exec_step(state, ExecEvent::InputWritten(Ok(())));
    assert!(matches!(action, ExecAction::Call { ptr: 0x3_0000, len: 5 }));
    let (state, action) = exec_step(state, ExecEvent::Called(Ok((0x4_0000u64 << 32) | 2)));
    assert!(matches!(action, ExecAction::ReadResult { ptr: 0x4_0000, len: 2 }));
    let (state, action) = exec_step(state, ExecEvent::ResultRead(Ok(vec![1, 2])));
    assert!(matches!(action, ExecAction::Finish));
    match state {
        ExecState::Done { outcome: Ok(v) } => assert_eq!(v, vec![1, 2]),
        _ => panic!("expected the result"),
    }
}

#[test]
fn heap_that_cannot_grow_is_an_allocation_error() {
    let (state, _): (State, ExecAction) = start_execution(5);
    let (state, _) = exec_step(state, ExecEvent::HeapTop(0));
    let (state, action) = exec_step(state, ExecEvent::HeapGrown(Ok(None)));
    assert!(matches!(action, ExecAction::Finish));
    assert!(matches!(state, ExecState::Done { outcome: Err(XcqExecutorError::MemoryAllocationError) }));
}

#[test]
fn failed_write_is_a_memory_access_error() {
    let (state, _): (State, ExecAction) = start_execution(1);
    let (state, _) = exec_step(state, ExecEvent::HeapTop(0));
    let (state, _) = exec_step(state, ExecEvent::HeapGrown(Ok(Some(0))));
    let (state, _) = exec_step(state, ExecEvent::InputWritten(Err(polkavm::MemoryAccessError::MemoryLimitReached)));
    assert!(matches!(state, ExecState::Done { outcome: Err(XcqExecutorError::MemoryAccessError(_)) }));
}

#[test]
fn trapped_call_is_a_call_error() {
    let (state, _): (State, ExecAction) = start_execution(0);
    let (state, _) = exec_step(state, ExecEvent::Called(Err(polkavm::CallError::Trap)));
    assert!(matches!(state, ExecState::Done { outcome: Err(XcqExecutorError::CallError(_)) }));
}
