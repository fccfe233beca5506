use xcq::program::{
    assert_return_ty, expected_return_ty_bytes, extract_inner_type, first_root_attr_position, AttrModel, CallDef, Def,
    EntrypointDef, MetaArgModel, MetaValueModel, ProgramError, ProgramItemModel,
};
use xcq::type_info::XcqTypeInfo;
use xcq::syntax::{ArgsModel, FnArgModel, GenericArgModel, PatModel, PathModel, SegmentModel, SignatureModel, TypeModel};

fn seg(name: &str) -> SegmentModel {
    SegmentModel { ident: name.to_string(), args: ArgsModel::Absent }
}

fn path(names: &[&str]) -> PathModel {
    PathModel { leading_colon: false, segments: names.iter().map(|n| seg(n)).collect() }
}

fn ty(name: &str) -> TypeModel {
    TypeModel::Path { qself: None, path: path(&[name]) }
}

fn generic(name: &str, arg: TypeModel) -> TypeModel {
    TypeModel::Path {
        qself: None,
        path: PathModel {
            leading_colon: false,
            segments: vec![SegmentModel {
                ident: name.to_string(),
                args: ArgsModel::AngleBracketed(vec![GenericArgModel::Type(arg)]),
            }],
        },
    }
}

fn arg(name: &str, t: TypeModel) -> FnArgModel {
    FnArgModel::Typed { pat: PatModel { text: name.to_string(), ident: Some(name.to_string()) }, ty: t }
}

fn sig(name: &str, inputs: Vec<FnArgModel>, output: Option<TypeModel>) -> SignatureModel {
    SignatureModel { ident: name.to_string(), inputs, output }
}

fn meta(key: &str, literal: &str) -> MetaArgModel {
    MetaArgModel {
        path: path(&[key]),
        value: Some(MetaValueModel { literal: literal.to_string(), types: None }),
    }
}

fn attr(names: &[&str], args: Option<Vec<MetaArgModel>>) -> AttrModel {
    AttrModel { path: path(names), args }
}

fn call_def_item(extension_id: &str, call_index: &str) -> ProgramItemModel {
    ProgramItemModel {
        attrs: Some(vec![attr(
            &["xcq", "call_def"],
            Some(vec![meta("extension_id", extension_id), meta("call_index", call_index)]),
        )]),
        item_fn: Some(sig("balance", vec![arg("asset", ty("u32"))], Some(ty("u64")))),
        fn_decl: None,
    }
}

fn entrypoint_item() -> ProgramItemModel {
    ProgramItemModel {
        attrs: Some(vec![attr(&["xcq", "entrypoint"], None)]),
        item_fn: Some(sig(
            "sum_balance",
            vec![arg("calls", generic("Vec", ty("BalanceCall"))), arg("single", ty("TotalSupplyCall"))],
            Some(ty("u64")),
        )),
        fn_decl: None,
    }
}

#[test]
fn reads_calls_and_entrypoint() {
    let items = vec![
        ProgramItemModel { attrs: Some(vec![]), item_fn: None, fn_decl: None },
        call_def_item("123456", "1"),
        entrypoint_item(),
    ];
    let def = Def::try_from(Some(items)).unwrap();
    assert_eq!(def.calls.len(), 1);
    assert_eq!(def.calls[0].index, 1);
    assert_eq!(def.calls[0].ident, "balance");
    assert_eq!(def.calls[0].extension_id, 123456);
    assert_eq!(def.calls[0].call_index, Some(1));
    assert_eq!(def.entrypoint.index, 2);
    assert_eq!(def.entrypoint.ident, "sum_balance");
    assert_eq!(def.entrypoint.arg_kinds(), vec![true, false]);
}

/// The module of the attribute's documented example: a call declared by a
/// function without a body, with an extension identifier and extern types
/// but no call index, and an entry point over a group of calls.
#[test]
fn documented_example_is_read() {
    let extern_types = MetaArgModel {
        path: path(&["extern_types"]),
        value: Some(MetaValueModel {
            literal: "[AssetId, AccountId, Balance]".to_string(),
            types: Some(vec![ty("AssetId"), ty("AccountId"), ty("Balance")]),
        }),
    };
    let balance = ProgramItemModel {
        attrs: Some(vec![attr(&["xcq", "call_def"], Some(vec![meta("extension_id", "123456"), extern_types]))]),
        item_fn: None,
        fn_decl: Some(sig("balance", vec![arg("asset", ty("AssetId")), arg("who", ty("AccountId"))], Some(ty("Balance")))),
    };
    let sum_balance = ProgramItemModel {
        attrs: Some(vec![attr(&["xcq", "entrypoint"], None)]),
        item_fn: Some(sig("sum_balance", vec![arg("calls", generic("Vec", ty("Call")))], Some(ty("u64")))),
        fn_decl: None,
    };
    let def = Def::try_from(Some(vec![balance, sum_balance])).unwrap();
    assert_eq!(def.calls.len(), 1);
    assert_eq!(def.calls[0].ident, "balance");
    assert_eq!(def.calls[0].extension_id, 123456);
    assert_eq!(def.calls[0].call_index, None);
    let names: Vec<String> = def.calls[0]
        .extern_types
        .as_ref()
        .unwrap()
        .types
        .iter()
        .map(|t| match t {
            TypeModel::Path { path, .. } => path.segments[0].ident.clone(),
            _ => String::new(),
        })
        .collect();
    assert_eq!(names, vec!["AssetId", "AccountId", "Balance"]);
    assert_eq!(def.entrypoint.ident, "sum_balance");
    assert_eq!(def.entrypoint.arg_kinds(), vec![true]);
    match &def.entrypoint.arg_types[0].ty {
        TypeModel::Path { path, .. } => assert_eq!(path.segments[0].ident, "Call"),
        _ => panic!("expected the call type"),
    }
}

#[test]
fn entrypoint_without_a_body_is_refused() {
    let decl = ProgramItemModel {
        attrs: Some(vec![attr(&["xcq", "entrypoint"], None)]),
        item_fn: None,
        fn_decl: Some(sig("main", vec![], Some(ty("u64")))),
    };
    assert_eq!(Def::try_from(Some(vec![decl])).err(), Some(ProgramError::EntrypointExpectedItemFn));
}

#[test]
fn literals_in_other_bases_are_read() {
    let items = vec![call_def_item("0x10", "2u32"), entrypoint_item()];
    let def = Def::try_from(Some(items)).unwrap();
    assert_eq!(def.calls[0].extension_id, 16);
    assert_eq!(def.calls[0].call_index, Some(2));
}

#[test]
fn program_errors() {
    assert_eq!(Def::try_from(None).err(), Some(ProgramError::NoContent));
    assert_eq!(Def::try_from(Some(vec![])).err(), Some(ProgramError::NoEntrypoint));
    assert_eq!(
        Def::try_from(Some(vec![entrypoint_item(), entrypoint_item()])).err(),
        Some(ProgramError::OnlyOneEntrypoint)
    );
    let other = ProgramItemModel { attrs: Some(vec![attr(&["xcq", "other"], None)]), item_fn: None, fn_decl: None };
    assert_eq!(Def::try_from(Some(vec![other])).err(), Some(ProgramError::InvalidAttribute));
    let no_args = ProgramItemModel { attrs: Some(vec![attr(&["xcq", "call_def"], None)]), item_fn: None, fn_decl: None };
    assert_eq!(Def::try_from(Some(vec![no_args])).err(), Some(ProgramError::ExpectedArguments));
    let bad_key = ProgramItemModel {
        attrs: Some(vec![attr(&["xcq", "call_def"], Some(vec![meta("extension", "1")]))]),
        item_fn: None,
        fn_decl: None,
    };
    assert_eq!(Def::try_from(Some(vec![bad_key])).err(), Some(ProgramError::InvalidCallDefAttribute));
    let bad_literal = call_def_item("x", "1");
    assert_eq!(Def::try_from(Some(vec![bad_literal])).err(), Some(ProgramError::InvalidLiteral));
    let missing_value = ProgramItemModel {
        attrs: Some(vec![attr(
            &["xcq", "call_def"],
            Some(vec![MetaArgModel { path: path(&["extension_id"]), value: None }]),
        )]),
        item_fn: None,
        fn_decl: None,
    };
    assert_eq!(Def::try_from(Some(vec![missing_value])).err(), Some(ProgramError::ExpectedValue));
    let bad_types = ProgramItemModel {
        attrs: Some(vec![attr(&["xcq", "call_def"], Some(vec![meta("extern_types", "1")]))]),
        item_fn: None,
        fn_decl: None,
    };
    assert_eq!(Def::try_from(Some(vec![bad_types])).err(), Some(ProgramError::InvalidExternTypes));
}

#[test]
fn call_def_errors_in_order() {
    let s = || Some(sig("f", vec![], Some(ty("u8"))));
    assert_eq!(CallDef::try_from(0, s(), None, None, None).err(), Some(ProgramError::MissingExtensionId));
    assert_eq!(CallDef::try_from(0, None, Some(1), None, None).err(), Some(ProgramError::CallDefExpectedItemFn));
    let no_index = CallDef::try_from(0, s(), Some(1), None, None).unwrap();
    assert_eq!(no_index.call_index, None);
    assert_eq!(CallDef::try_from(0, s(), Some(1), Some(0), None).unwrap().call_index, Some(0));
}

#[test]
fn entrypoint_errors() {
    assert_eq!(EntrypointDef::try_from(0, None).err(), Some(ProgramError::EntrypointExpectedItemFn));
    let receiver = sig("main", vec![FnArgModel::Receiver], None);
    assert_eq!(EntrypointDef::try_from(0, Some(receiver)).err(), Some(ProgramError::EntrypointExpectedTypedArgs));
    let reference = sig("main", vec![arg("c", TypeModel::Reference(Box::new(ty("Call"))))], None);
    assert_eq!(EntrypointDef::try_from(0, Some(reference)).err(), Some(ProgramError::EntrypointArgsMustBeOwned));
    let qualified_vec = sig("main", vec![arg("c", TypeModel::Path { qself: None, path: path(&["alloc", "Vec"]) })], None);
    assert_eq!(EntrypointDef::try_from(0, Some(qualified_vec)).err(), Some(ProgramError::ExpectedVec));
}

#[test]
fn inner_type_of_vec() {
    assert!(matches!(extract_inner_type(generic("Vec", ty("Call"))), Ok(TypeModel::Path { .. })));
    assert_eq!(extract_inner_type(ty("Call")).err(), Some(ProgramError::ExpectedVec));
}

#[test]
fn expected_return_types() {
    assert_eq!(expected_return_ty_bytes(&Some(ty("u8"))).unwrap(), vec![0, 2]);
    assert_eq!(expected_return_ty_bytes(&Some(ty("u16"))).unwrap(), vec![0, 3]);
    assert_eq!(expected_return_ty_bytes(&Some(ty("u32"))).unwrap(), vec![0, 4]);
    assert_eq!(expected_return_ty_bytes(&Some(ty("u64"))).unwrap(), vec![0, 5]);
    assert_eq!(expected_return_ty_bytes(&Some(ty("u128"))).unwrap(), vec![0, 6]);
    assert_eq!(expected_return_ty_bytes(&Some(generic("Vec", ty("u8")))).unwrap(), vec![4, 0, 2]);
    assert_eq!(expected_return_ty_bytes(&Some(generic("Vec", ty("u16")))).unwrap(), vec![0]);
    assert_eq!(expected_return_ty_bytes(&Some(ty("String"))).unwrap(), vec![0]);
    assert_eq!(expected_return_ty_bytes(&None).err(), Some(ProgramError::ExpectedReturnPath));
    assert_eq!(expected_return_ty_bytes(&Some(TypeModel::Tuple(vec![]))).err(), Some(ProgramError::ExpectedReturnPath));
}

#[test]
fn return_type_check_compares_bytes() {
    assert!(assert_return_ty(&[0, 5], &[0, 5]));
    assert!(!assert_return_ty(&[0, 5], &[0, 4]));
    assert!(!assert_return_ty(&[0, 5], &[0]));
}

#[test]
fn first_xcq_attribute_is_taken() {
    let attrs = vec![attr(&["doc"], None), attr(&["xcq", "entrypoint"], None), attr(&["xcq", "call_def"], None)];
    assert_eq!(first_root_attr_position(&attrs, "xcq"), Some(1));
    assert_eq!(first_root_attr_position(&attrs, "program"), None);
}

#[test]
fn error_messages() {
    assert_eq!(ProgramError::NoEntrypoint.message(), "No entrypoint function found");
    assert_eq!(ProgramError::ExpectedVec.message(), "Expected Vec<_>");
}

#[test]
fn return_type_check_agrees_with_the_host() {
    assert_eq!(expected_return_ty_bytes(&Some(ty("u64"))).unwrap(), <u64 as XcqTypeInfo>::type_info().encode());
    assert_eq!(expected_return_ty_bytes(&Some(ty("u8"))).unwrap(), <u8 as XcqTypeInfo>::type_info().encode());
    assert_eq!(
        expected_return_ty_bytes(&Some(generic("Vec", ty("u8")))).unwrap(),
        <Vec<u8> as XcqTypeInfo>::type_info().encode()
    );
}
