use xcq::extension::{ExtensionError, InvokeSource};
use xcq::host::{on_dispatched, on_heap_grown, on_heap_top, on_written, Context, HostAction, HostCallState, HostEvent};

fn answer(action: &HostAction) -> Option<u64> {
    match action {
        HostAction::Answer { value } => Some(*value),
        _ => None,
    }
}

#[test]
fn host_call_starts_by_reading_the_call() {
    let ctx = Context::<(), ()>::new(InvokeSource::RuntimeAPI);
    let (state, action) = ctx.host_call(7, 0x100, 12);
    assert!(matches!(state, HostCallState::AwaitCall { extension_id: 7, source: InvokeSource::RuntimeAPI }));
    assert!(matches!(action, HostAction::ReadMemory { ptr: 0x100, len: 12 }));
}

#[test]
fn unreadable_call_is_answered_zero() {
    let ctx = Context::<(), ()>::new(InvokeSource::XCM);
    let (state, _) = ctx.host_call(7, 0x100, 12);
    let (state, action) = ctx.step(state, HostEvent::MemoryRead(Err(polkavm::MemoryAccessError::MemoryLimitReached)));
    assert!(matches!(state, HostCallState::Done { outcome: Err(ExtensionError::MemoryAccessError(_)) }));
    assert_eq!(answer(&action), Some(0));
}

#[test]
fn call_to_an_unknown_extension_is_answered_zero() {
    let ctx = Context::<(), ()>::new(InvokeSource::Runtime);
    let (state, _) = ctx.host_call(7, 0x100, 2);
    let (state, action) = ctx.step(state, HostEvent::MemoryRead(Ok(vec![1, 2])));
    assert!(matches!(state, HostCallState::Done { outcome: Err(ExtensionError::UnsupportedExtension) }));
    assert_eq!(answer(&action), Some(0));
}

#[test]
fn return_ty_of_an_unknown_extension_is_answered_zero() {
    let ctx = Context::<(), ()>::new(InvokeSource::Extrinsic);
    let (state, action) = ctx.return_ty(1, 0);
    assert!(matches!(state, HostCallState::Done { outcome: Err(ExtensionError::UnsupportedExtension) }));
    assert_eq!(answer(&action), Some(0));
}

#[test]
fn result_is_placed_at_the_heap_top_and_answered_packed() {
    let (state, action) = on_dispatched(Ok(vec![9, 8, 7]));
    assert!(matches!(action, HostAction::HeapTop));
    let result = match state {
        HostCallState::AwaitHeapTop { result } => result,
        _ => panic!("expected to wait for the heap top"),
    };
    let (state, action) = on_heap_top(result, Some(0x2_0000));
    assert!(matches!(action, HostAction::GrowHeap { size: 3 }));
    let (result, ptr) = match state {
        HostCallState::AwaitGrowth { result, ptr } => (result, ptr),
        _ => panic!("expected to wait for the heap to grow"),
    };
    assert_eq!(ptr, 0x2_0000);
    let (state, action) = on_heap_grown(result, ptr, Some(0x2_0000));
    match action {
        HostAction::WriteMemory { ptr, bytes } => {
            assert_eq!(ptr, 0x2_0000);
            assert_eq!(bytes, vec![9, 8, 7]);
        }
        _ => panic!("expected a write"),
    }
    let (len, ptr) = match state {
        HostCallState::AwaitWrite { len, ptr } => (len, ptr),
        _ => panic!("expected to wait for the write"),
    };
    let (state, action) = on_written(len, ptr, Ok(()));
    assert_eq!(answer(&action), Some((3u64 << 32) | 0x2_0000));
    assert!(matches!(state, HostCallState::Done { outcome: Ok(v) } if v == (3u64 << 32) | 0x2_0000));
}

#[test]
fn failures_after_dispatch_are_answered_zero() {
    let (_, action) = on_dispatched(Err(ExtensionError::PermissionError));
    assert_eq!(answer(&action), Some(0));
    let (_, action) = on_heap_top(vec![1], None);
    assert_eq!(answer(&action), Some(0));
    let (state, action) = on_heap_grown(vec![1], 4, None);
    assert_eq!(answer(&action), Some(0));
    assert!(matches!(state, HostCallState::Done { outcome: Err(ExtensionError::MemoryAllocationError) }));
    let (state, action) = on_written(1, 4, Err(polkavm::MemoryAccessError::MemoryLimitReached));
    assert_eq!(answer(&action), Some(0));
    assert!(matches!(state, HostCallState::Done { outcome: Err(ExtensionError::MemoryAccessError(_)) }));
}

/// The host answers a call with the result's length in the upper half and
/// its address in the lower half: 3 bytes at address 16 give 3·2³² + 16.
#[test]
fn answer_puts_length_high_and_address_low() {
    let (_, action) = on_written(3, 16, Ok(()));
    assert_eq!(answer(&action), Some(3 * (1u64 << 32) + 16));
}
