use xcq::extension_decl::{
    decl_metadata_plan, dedup_names, extract_impl_trait, generic_param_bounds, impl_extension_plans,
    metadata_bounds, methods, DeclError, ImplError,
    ImplItemModel, ImplModel, RequireQualifiedTraitPath,
};
use xcq::syntax::{
    get_type_param, ArgsModel, FnArgModel, PatModel, PathModel, SegmentModel, SignatureModel, TraitItemModel,
    TraitModel, TypeModel,
};

fn seg(name: &str) -> SegmentModel {
    SegmentModel { ident: name.to_string(), args: ArgsModel::Absent }
}

fn path(names: &[&str]) -> PathModel {
    PathModel { leading_colon: false, segments: names.iter().map(|n| seg(n)).collect() }
}

fn ty(names: &[&str]) -> TypeModel {
    TypeModel::Path { qself: None, path: path(names) }
}

/// `<Self::Config as Config>::name`
fn config_ty(name: &str) -> TypeModel {
    TypeModel::Path { qself: Some(Box::new(ty(&["Self", "Config"]))), path: path(&["Config", name]) }
}

fn arg(name: &str, t: TypeModel) -> FnArgModel {
    FnArgModel::Typed { pat: PatModel { text: name.to_string(), ident: Some(name.to_string()) }, ty: t }
}

fn fungibles() -> TraitModel {
    TraitModel {
        ident: "ExtensionFungibles".to_string(),
        items: vec![
            TraitItemModel::Type { ident: "Config".to_string() },
            TraitItemModel::Fn(SignatureModel {
                ident: "total_supply".to_string(),
                inputs: vec![arg("asset", config_ty("AssetId"))],
                output: Some(config_ty("Balance")),
            }),
            TraitItemModel::Fn(SignatureModel {
                ident: "balance".to_string(),
                inputs: vec![arg("asset", config_ty("AssetId")), arg("who", config_ty("AccountId"))],
                output: Some(config_ty("Balance")),
            }),
        ],
    }
}

fn qself_ident(t: &TypeModel) -> String {
    match t {
        TypeModel::Path { qself: Some(q), .. } => match &**q {
            TypeModel::Path { path, .. } => path.segments.iter().map(|s| s.ident.clone()).collect::<Vec<_>>().join("::"),
            _ => String::new(),
        },
        _ => String::new(),
    }
}

#[test]
fn methods_of_a_trait() {
    let m = methods(&fungibles().items).unwrap();
    assert_eq!(m.len(), 2);
    assert_eq!(m[0].name, "total_supply");
    let args0: Vec<(String, String, String)> =
        m[0].args.iter().map(|(n, t)| (n.clone(), qself_ident(t), path_text(t))).collect();
    assert_eq!(args0, vec![("asset".to_string(), "Self::Config".to_string(), "Config::AssetId".to_string())]);
    assert_eq!(m[1].name, "balance");
    let args1: Vec<(String, String, String)> =
        m[1].args.iter().map(|(n, t)| (n.clone(), qself_ident(t), path_text(t))).collect();
    assert_eq!(
        args1,
        vec![
            ("asset".to_string(), "Self::Config".to_string(), "Config::AssetId".to_string()),
            ("who".to_string(), "Self::Config".to_string(), "Config::AccountId".to_string()),
        ]
    );
}

fn path_text(t: &TypeModel) -> String {
    match t {
        TypeModel::Path { path, .. } => path.segments.iter().map(|s| s.ident.clone()).collect::<Vec<_>>().join("::"),
        _ => String::new(),
    }
}

#[test]
fn method_argument_must_be_an_identifier() {
    let items = vec![TraitItemModel::Fn(SignatureModel {
        ident: "f".to_string(),
        inputs: vec![FnArgModel::Typed { pat: PatModel { text: "(a, b)".to_string(), ident: None }, ty: TypeModel::Other }],
        output: None,
    })];
    assert_eq!(methods(&items).err(), Some(DeclError::InvalidArgument));
}

#[test]
fn metadata_of_a_trait_with_configuration() {
    let plan = decl_metadata_plan(&fungibles());
    assert_eq!(plan.name, "ExtensionFungibles");
    assert!(plan.has_config);
    assert_eq!(plan.generic_params, vec!["Config".to_string()]);
    assert_eq!(plan.methods.len(), 2);
    assert_eq!(plan.methods[1].name, "balance");
    assert_eq!(plan.methods[1].params.len(), 2);
    assert_eq!(plan.methods[1].params[1].name, "who");
    assert_eq!(qself_ident(&plan.methods[1].params[1].ty), "GenericForConfig");
    assert_eq!(qself_ident(plan.methods[1].output.as_ref().unwrap()), "GenericForConfig");
}

#[test]
fn metadata_of_a_trait_without_configuration() {
    let t = TraitModel {
        ident: "Plain".to_string(),
        items: vec![TraitItemModel::Fn(SignatureModel {
            ident: "get".to_string(),
            inputs: vec![FnArgModel::Receiver, arg("key", config_ty("Key"))],
            output: None,
        })],
    };
    let plan = decl_metadata_plan(&t);
    assert!(!plan.has_config);
    assert!(plan.generic_params.is_empty());
    assert_eq!(plan.methods[0].params.len(), 1);
    assert_eq!(qself_ident(&plan.methods[0].params[0].ty), "Self::Config");
    assert!(plan.methods[0].output.is_none());
}

#[test]
fn bounds_go_on_element_types() {
    let r = TypeModel::Reference(Box::new(ty(&["AccountId"])));
    assert!(matches!(get_type_param(&r), TypeModel::Path { .. }));
    let t = ty(&["u32"]);
    assert!(matches!(get_type_param(&t), TypeModel::Path { .. }));
}

#[test]
fn names_are_kept_once() {
    let names = vec!["A".to_string(), "B".to_string(), "A".to_string()];
    assert_eq!(dedup_names(&names), vec!["A".to_string(), "B".to_string()]);
}

fn runtime_impl(trait_path: Option<PathModel>) -> ImplModel {
    ImplModel {
        trait_: trait_path,
        items: vec![
            ImplItemModel::Type { ident: "AssetId".to_string(), ty: ty(&["u32"]) },
            ImplItemModel::Other,
            ImplItemModel::Type { ident: "Balance".to_string(), ty: ty(&["u64"]) },
            ImplItemModel::Type { ident: "Amount".to_string(), ty: ty(&["u64"]) },
        ],
    }
}

#[test]
fn impls_reach_the_generated_modules() {
    let impls = vec![
        runtime_impl(Some(path(&["pvq_extension_fungibles", "ExtensionFungibles"]))),
        ImplModel { trait_: Some(path(&["core_ext", "ExtensionCore"])), items: vec![] },
    ];
    let plans = impl_extension_plans(&impls).unwrap();
    assert_eq!(plans[0].mod_name, "decl_extension_for_extension_fungibles");
    assert_eq!(plans[0].generic_args, vec!["u32".to_string(), "u64".to_string()]);
    assert_eq!(plans[1].mod_name, "decl_extension_for_extension_core");
    assert!(plans[1].generic_args.is_empty());
}

#[test]
fn impl_errors() {
    let unqualified = vec![runtime_impl(Some(path(&["ExtensionFungibles"])))];
    assert_eq!(impl_extension_plans(&unqualified).err(), Some(ImplError::UnqualifiedTrait));
    let inherent = vec![runtime_impl(None)];
    assert_eq!(impl_extension_plans(&inherent).err(), Some(ImplError::NotTraitImpl));
    let single = runtime_impl(Some(path(&["ExtensionFungibles"])));
    assert!(extract_impl_trait(&single, RequireQualifiedTraitPath::No).is_ok());
    assert_eq!(
        ImplError::NotTraitImpl.message(),
        "Only implementation of traits are supported!"
    );
}

#[test]
fn replacing_twice_replaces_nothing_more() {
    let mut names = Vec::new();
    let once = xcq::extension_decl::replace_associated_types(&config_ty("AssetId"), &mut names);
    assert_eq!(names, vec!["Config".to_string()]);
    let mut again = Vec::new();
    let twice = xcq::extension_decl::replace_associated_types(&once, &mut again);
    assert!(again.is_empty());
    assert_eq!(qself_ident(&twice), "GenericForConfig");
}

/// The `where` clause of the fungibles metadata: `GenericForConfig: Config`,
/// then `XcqTypeInfo + 'static` on each parameter and output type, with
/// `Self::Config` replaced.
#[test]
fn where_clause_bounds_of_the_metadata() {
    let plan = decl_metadata_plan(&fungibles());
    assert_eq!(generic_param_bounds(&plan), vec![("GenericForConfig".to_string(), "Config".to_string())]);
    let bounds = metadata_bounds(&plan);
    let sites: Vec<(usize, Option<usize>, bool, String, String)> = bounds
        .iter()
        .map(|b| (b.method, b.param, b.elem, qself_ident(&b.ty), path_text(&b.ty)))
        .collect();
    let g = || "GenericForConfig".to_string();
    assert_eq!(
        sites,
        vec![
            (0, Some(0), false, g(), "Config::AssetId".to_string()),
            (0, None, false, g(), "Config::Balance".to_string()),
            (1, Some(0), false, g(), "Config::AssetId".to_string()),
            (1, Some(1), false, g(), "Config::AccountId".to_string()),
            (1, None, false, g(), "Config::Balance".to_string()),
        ]
    );
}

#[test]
fn bounds_are_placed_on_element_types() {
    let t = TraitModel {
        ident: "Store".to_string(),
        items: vec![
            TraitItemModel::Type { ident: "Config".to_string() },
            TraitItemModel::Fn(SignatureModel {
                ident: "get".to_string(),
                inputs: vec![arg("key", TypeModel::Reference(Box::new(ty(&["u32"]))))],
                output: Some(TypeModel::Slice(Box::new(ty(&["u8"])))),
            }),
            TraitItemModel::Fn(SignatureModel { ident: "ping".to_string(), inputs: vec![], output: None }),
        ],
    };
    let plan = decl_metadata_plan(&t);
    let bounds = metadata_bounds(&plan);
    let sites: Vec<(usize, Option<usize>, bool, String)> =
        bounds.iter().map(|b| (b.method, b.param, b.elem, path_text(&b.ty))).collect();
    assert_eq!(sites, vec![(0, Some(0), true, "u32".to_string()), (0, None, true, "u8".to_string())]);
}
