use xcq::naming::{
    calculate_hash, call_struct_name, extension_hash_bytes, generate_access_from_frame_or_crate, generate_crate_access,
    generate_mod_name_for_trait, generate_runtime_mod_name_for_trait, CrateAccess, FoundCrateModel,
};
use xcq::syntax::{SignatureModel, TraitItemModel};

fn method(name: &str) -> TraitItemModel {
    TraitItemModel::Fn(SignatureModel { ident: name.to_string(), inputs: vec![], output: None })
}

#[test]
fn hash_input_is_marker_name_and_method_names() {
    let items = vec![TraitItemModel::Type { ident: "Config".to_string() }, method("has_extension")];
    let mut expected = b"xcq-ext$".to_vec();
    expected.push(0xff);
    expected.extend_from_slice(b"ExtensionCore");
    expected.push(0xff);
    expected.extend_from_slice(b"@");
    expected.push(0xff);
    expected.extend_from_slice(b"has_extension");
    expected.push(0xff);
    assert_eq!(extension_hash_bytes(&"ExtensionCore".to_string(), &items), expected);
}

#[test]
fn extension_ids() {
    let core = vec![TraitItemModel::Type { ident: "Config".to_string() }, method("has_extension")];
    assert_eq!(calculate_hash(&"ExtensionCore".to_string(), &core), 9413763400367702439);
    let fungibles = vec![
        TraitItemModel::Type { ident: "Config".to_string() },
        method("total_supply"),
        method("balance"),
    ];
    assert_eq!(calculate_hash(&"ExtensionFungibles".to_string(), &fungibles), 10588899351449456541);
    assert_eq!(calculate_hash(&"Empty".to_string(), &[]), 9425685908359757650);
}

#[test]
fn extension_id_ignores_everything_but_names() {
    let a = vec![method("total_supply"), method("balance")];
    let b = vec![
        TraitItemModel::Other,
        method("total_supply"),
        TraitItemModel::Type { ident: "Config".to_string() },
        method("balance"),
    ];
    let name = "ExtensionFungibles".to_string();
    assert_eq!(calculate_hash(&name, &a), calculate_hash(&name, &b));
    let c = vec![method("balance"), method("total_supply")];
    assert_ne!(calculate_hash(&name, &a), calculate_hash(&name, &c));
}

#[test]
fn module_names() {
    assert_eq!(
        generate_mod_name_for_trait(&"ExtensionFungibles".to_string()),
        "decl_extension_for_extension_fungibles"
    );
    assert_eq!(generate_runtime_mod_name_for_trait(&"XcqApi".to_string()), "runtime_decl_for_xcq_api");
    assert_eq!(call_struct_name(&"total_supply".to_string()), "TotalSupplyCall");
    assert_eq!(call_struct_name(&"balance".to_string()), "BalanceCall");
}

#[test]
fn crate_access() {
    assert!(matches!(generate_crate_access(&FoundCrateModel::Itself), CrateAccess::Crate));
    match generate_crate_access(&FoundCrateModel::Name("xcq-extension".to_string())) {
        CrateAccess::Ident(name) => assert_eq!(name, "xcq_extension"),
        CrateAccess::Crate => panic!("expected an identifier"),
    }
    assert_eq!(
        xcq::pvq_program::generate_crate_access("pvq-extension", &FoundCrateModel::Itself),
        "pvq_extension"
    );
    assert_eq!(
        xcq::pvq_program::generate_crate_access("pvq-extension", &FoundCrateModel::Name("pvq_ext".to_string())),
        "pvq_ext"
    );
}

fn path_text(p: &xcq::syntax::PathModel) -> String {
    p.segments.iter().map(|s| s.ident.clone()).collect::<Vec<_>>().join("::")
}

fn path_of(names: &[&str]) -> xcq::syntax::PathModel {
    xcq::syntax::PathModel {
        leading_colon: false,
        segments: names
            .iter()
            .map(|n| xcq::syntax::SegmentModel { ident: n.to_string(), args: xcq::syntax::ArgsModel::Absent })
            .collect(),
    }
}

#[test]
fn access_from_frame_or_crate_tries_frame_then_sdk_then_the_crate() {
    let frame = path_of(&["polkadot_sdk_frame", "deps", "xcq_types"]);
    let sdk = path_of(&["polkadot_sdk", "xcq_types"]);
    let r = generate_access_from_frame_or_crate(Some(frame), Some(path_of(&["x"])), "xcq-types", Some(FoundCrateModel::Itself)).unwrap();
    assert_eq!(path_text(&r), "polkadot_sdk_frame::deps::xcq_types");
    let r = generate_access_from_frame_or_crate(None, Some(sdk), "xcq-types", None).unwrap();
    assert_eq!(path_text(&r), "polkadot_sdk::xcq_types");
    let r = generate_access_from_frame_or_crate(None, None, "xcq-types", Some(FoundCrateModel::Itself)).unwrap();
    assert_eq!(path_text(&r), "xcq_types");
    let r = generate_access_from_frame_or_crate(None, None, "xcq-types", Some(FoundCrateModel::Name("renamed-types".to_string()))).unwrap();
    assert_eq!(path_text(&r), "renamed-types");
    assert!(generate_access_from_frame_or_crate(None, None, "xcq-types", None).is_none());
}
