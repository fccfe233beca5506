use xcq::extension::{
    Bytes, CallDataTuple, CallMetadata, DecodeCall, DispatchError, Dispatchable, ExtensionError, ExtensionId, InvokeSource,
    PermController,
};
use xcq::metadata::{ExtensionMetadataIR, ExtensionView, MethodMetadataIR};
use xcq::type_info::meta_type;

/// A call that answers with its own bytes.
struct EchoCall(Vec<u8>);

impl Dispatchable for EchoCall {
    // The trait's specification function, which only the verifier reads.
    fn spec_answers(&self, _out: Bytes) -> bool {
        panic!("a specification function is not called at run time")
    }

    fn dispatch(self) -> Result<Vec<u8>, DispatchError> {
        Ok(self.0)
    }
}

impl ExtensionId for EchoCall {
    // The trait's specification function, which only the verifier reads.
    fn spec_extension_id() -> u64 {
        panic!("a specification function is not called at run time")
    }

    fn extension_id() -> u64 {
        42
    }
}

impl CallMetadata for EchoCall {
    // The trait's specification function, which only the verifier reads.
    fn spec_call_metadata() -> ExtensionView {
        panic!("a specification function is not called at run time")
    }

    fn call_metadata() -> ExtensionMetadataIR {
        ExtensionMetadataIR {
            name: "Echo",
            methods: vec![MethodMetadataIR { name: "echo", inputs: vec![], output: meta_type::<u64>() }],
        }
    }
}

impl DecodeCall for EchoCall {
    // The trait's specification function, which only the verifier reads.
    fn spec_decode(_data: Bytes) -> Option<Self> {
        panic!("a specification function is not called at run time")
    }

    fn decode_call(data: &[u8]) -> Result<Self, parity_scale_codec::Error> {
        if data.is_empty() {
            Err("no call".into())
        } else {
            Ok(EchoCall(data.to_vec()))
        }
    }
}

#[test]
fn calls_are_routed_by_extension_id() {
    assert_eq!(<(EchoCall,) as CallDataTuple>::dispatch(42, &[1, 2]).unwrap(), vec![1, 2]);
    assert!(matches!(<(EchoCall,) as CallDataTuple>::dispatch(7, &[1]), Err(ExtensionError::UnsupportedExtension)));
    assert!(matches!(<(EchoCall,) as CallDataTuple>::dispatch(42, &[]), Err(ExtensionError::DecodeError(_))));
    assert!(matches!(<() as CallDataTuple>::dispatch(42, &[1]), Err(ExtensionError::UnsupportedExtension)));
}

#[test]
fn return_type_of_a_method() {
    assert_eq!(<(EchoCall,) as CallDataTuple>::return_ty(42, 0).unwrap(), vec![0, 5]);
    assert!(matches!(<(EchoCall,) as CallDataTuple>::return_ty(1, 0), Err(ExtensionError::UnsupportedExtension)));
    assert_eq!(<(EchoCall,) as CallDataTuple>::method_count(42), Some(1));
    assert_eq!(<(EchoCall,) as CallDataTuple>::method_count(1), None);
}

#[test]
fn unit_controller_allows_every_call() {
    assert!(<() as PermController>::is_allowed(1, &[1, 2, 3], InvokeSource::XCM));
    assert!(<() as PermController>::is_allowed(0, &[], InvokeSource::Extrinsic));
}

/// A call that answers with its bytes reversed, under the same identifier.
struct ReverseCall(Vec<u8>);

impl Dispatchable for ReverseCall {
    // The trait's specification function, which only the verifier reads.
    fn spec_answers(&self, _out: Bytes) -> bool {
        panic!("a specification function is not called at run time")
    }

    fn dispatch(self) -> Result<Vec<u8>, DispatchError> {
        Ok(self.0.into_iter().rev().collect())
    }
}

impl ExtensionId for ReverseCall {
    // The trait's specification function, which only the verifier reads.
    fn spec_extension_id() -> u64 {
        panic!("a specification function is not called at run time")
    }

    fn extension_id() -> u64 {
        42
    }
}

impl CallMetadata for ReverseCall {
    // The trait's specification function, which only the verifier reads.
    fn spec_call_metadata() -> ExtensionView {
        panic!("a specification function is not called at run time")
    }

    fn call_metadata() -> ExtensionMetadataIR {
        ExtensionMetadataIR {
            name: "Reverse",
            methods: vec![MethodMetadataIR { name: "reverse", inputs: vec![], output: meta_type::<bool>() }],
        }
    }
}

impl DecodeCall for ReverseCall {
    // The trait's specification function, which only the verifier reads.
    fn spec_decode(_data: Bytes) -> Option<Self> {
        panic!("a specification function is not called at run time")
    }

    fn decode_call(data: &[u8]) -> Result<Self, parity_scale_codec::Error> {
        Ok(ReverseCall(data.to_vec()))
    }
}

#[test]
fn first_extension_with_the_identifier_answers() {
    assert_eq!(<(EchoCall, ReverseCall) as CallDataTuple>::dispatch(42, &[1, 2]).unwrap(), vec![1, 2]);
    assert_eq!(<(ReverseCall, EchoCall) as CallDataTuple>::dispatch(42, &[1, 2]).unwrap(), vec![2, 1]);
    assert_eq!(<(ReverseCall, EchoCall) as CallDataTuple>::return_ty(42, 0).unwrap(), vec![0, 0]);
}
