use xcq::type_info::XcqTypeInfo;
use xcq::types::{EnumType, Field, PrimitiveType, StructType, Variant, XcqType};
use xcq::derive::{describe_enum, describe_struct, describe_variant, plan_type_info, DataModel, DeriveError, DeriveInputModel, FieldsModel, FieldsPlan, TypeInfoPlan, VariantModel};

fn item(ident: &str, data: DataModel) -> DeriveInputModel {
    DeriveInputModel { ident: ident.to_string(), has_attrs: false, has_type_params: false, data }
}

fn field_names(plan: &FieldsPlan) -> Option<Vec<Vec<u8>>> {
    match plan {
        FieldsPlan::Fields(names) => Some(names.clone()),
        FieldsPlan::Nothing => None,
    }
}

/// The struct `Person { name: String, age_in_years: u8 }` is described by
/// its name and its two field names, in order.
#[test]
fn derive_plan_for_person() {
    let person = item("Person", DataModel::Struct(FieldsModel::Named(vec!["name".to_string(), "age_in_years".to_string()])));
    match plan_type_info(&person).unwrap() {
        TypeInfoPlan::Struct { ident, fields } => {
            assert_eq!(ident, b"Person".to_vec());
            assert_eq!(field_names(&fields), Some(vec![b"name".to_vec(), b"age_in_years".to_vec()]));
        }
        _ => panic!("expected a struct description"),
    }
}

#[test]
fn derive_plan_for_an_enum() {
    let e = item(
        "Shape",
        DataModel::Enum(vec![
            VariantModel { ident: "Circle".to_string(), fields: FieldsModel::Unnamed(1) },
            VariantModel { ident: "Rect".to_string(), fields: FieldsModel::Named(vec!["w".to_string(), "h".to_string()]) },
            VariantModel { ident: "Empty".to_string(), fields: FieldsModel::Unit },
        ]),
    );
    match plan_type_info(&e).unwrap() {
        TypeInfoPlan::Enum { ident, variants } => {
            assert_eq!(ident, b"Shape".to_vec());
            assert_eq!(variants.len(), 3);
            assert_eq!(variants[0].0, b"Circle".to_vec());
            assert_eq!(field_names(&variants[0].1), Some(vec![vec![]]));
            assert_eq!(variants[1].0, b"Rect".to_vec());
            assert_eq!(field_names(&variants[1].1), Some(vec![b"w".to_vec(), b"h".to_vec()]));
            assert_eq!(variants[2].0, b"Empty".to_vec());
            assert_eq!(field_names(&variants[2].1), None);
        }
        _ => panic!("expected an enum description"),
    }
}

#[test]
fn derive_refusals_in_order() {
    let mut with_attrs = item("A", DataModel::Union);
    with_attrs.has_attrs = true;
    with_attrs.has_type_params = true;
    assert_eq!(plan_type_info(&with_attrs).err(), Some(DeriveError::UnexpectedAttributes));
    let mut generic = item("B", DataModel::Union);
    generic.has_type_params = true;
    assert_eq!(plan_type_info(&generic).err(), Some(DeriveError::GenericsNotSupported));
    assert_eq!(plan_type_info(&item("C", DataModel::Union)).err(), Some(DeriveError::UnionsNotSupported));
}

/// The tuple struct `Color(u8, u8, u8)`: one field per field, each with an
/// empty name and the description of `u8`.
#[test]
fn tuple_struct_is_described_with_empty_names() {
    let plan = plan_type_info(&item("Color", DataModel::Struct(FieldsModel::Unnamed(3)))).unwrap();
    let described = match plan {
        TypeInfoPlan::Struct { ident, fields: FieldsPlan::Fields(names) } => {
            describe_struct(&ident, &names, &vec![u8::type_info(), u8::type_info(), u8::type_info()])
        }
        _ => panic!("expected a struct plan with fields"),
    };
    let field = Field { ident: vec![], ty: PrimitiveType::U8.into() };
    assert_eq!(
        described,
        XcqType::Struct(StructType { ident: b"Color".to_vec(), fields: vec![field.clone(), field.clone(), field] })
    );
}

#[test]
fn enum_is_described_variant_by_variant() {
    let circle = describe_variant(&b"Circle".to_vec(), &vec![vec![]], &vec![u32::type_info()]);
    let empty = describe_variant(&b"Empty".to_vec(), &vec![], &vec![]);
    let described = describe_enum(&b"Shape".to_vec(), vec![circle, empty]);
    assert_eq!(
        described,
        XcqType::Enum(EnumType {
            ident: b"Shape".to_vec(),
            variants: vec![
                Variant { ident: b"Circle".to_vec(), fields: vec![Field { ident: vec![], ty: u32::type_info() }] },
                Variant { ident: b"Empty".to_vec(), fields: vec![] },
            ],
        })
    );
}
