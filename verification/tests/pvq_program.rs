use xcq::pvq_program::{EntrypointDef, ExtensionFn, PvqProgramError};
use xcq::syntax::{FnArgModel, PatModel, SignatureModel, TypeModel};

fn sig(inputs: Vec<FnArgModel>) -> SignatureModel {
    SignatureModel { ident: "balance".to_string(), inputs, output: None }
}

fn typed() -> FnArgModel {
    FnArgModel::Typed { pat: PatModel { text: "asset".to_string(), ident: Some("asset".to_string()) }, ty: TypeModel::Other }
}

#[test]
fn extension_fn_is_read() {
    let f = ExtensionFn::try_from(Some(sig(vec![typed()])), Some(9), Some(1)).unwrap();
    assert_eq!(f.extension_id, 9);
    assert_eq!(f.fn_index, 1);
    assert_eq!(f.item_fn.ident, "balance");
}

#[test]
fn extension_fn_errors_in_order() {
    assert_eq!(ExtensionFn::try_from(None, None, None).err().map(|e| e), Some(PvqProgramError::MissingExtensionId));
    assert_eq!(ExtensionFn::try_from(None, Some(1), None).err(), Some(PvqProgramError::ExtensionFnExpectedItemFn));
    assert_eq!(
        ExtensionFn::try_from(Some(sig(vec![FnArgModel::Receiver])), Some(1), None).err(),
        Some(PvqProgramError::ExtensionFnReceiver)
    );
    assert_eq!(ExtensionFn::try_from(Some(sig(vec![])), Some(1), None).err(), Some(PvqProgramError::MissingFnIndex));
}

#[test]
fn entrypoint_is_read() {
    assert!(EntrypointDef::try_from(Some(sig(vec![typed()]))).is_ok());
    assert_eq!(EntrypointDef::try_from(None).err(), Some(PvqProgramError::EntrypointExpectedItemFn));
    assert_eq!(
        EntrypointDef::try_from(Some(sig(vec![FnArgModel::Receiver]))).err(),
        Some(PvqProgramError::EntrypointReceiver)
    );
}

#[test]
fn call_enum_is_named_after_the_function() {
    assert_eq!(xcq::pvq_program::extension_call_enum_name(&"balance".to_string()), "balanceCall");
}
