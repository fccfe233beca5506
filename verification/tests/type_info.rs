use xcq::derive::{describe_struct, plan_type_info, DataModel, DeriveInputModel, FieldsModel, FieldsPlan, TypeInfoPlan};
use xcq::type_info::XcqTypeInfo;
use xcq::types::{EnumType, Field, PrimitiveType, StructType, TypeView, Variant, XcqType};

fn assert_type_fn<T: XcqTypeInfo + ?Sized>(expect: XcqType) {
    assert_eq!(T::type_info(), expect);
}

/// What `#[derive(XcqTypeInfo)]` gives for the struct below.
struct Person {
    #[allow(dead_code)]
    name: String,
    #[allow(dead_code)]
    age_in_years: u8,
}

impl XcqTypeInfo for Person {
    type Identity = Self;

    // The trait's specification function, which only the verifier reads.
    fn spec_type_info() -> TypeView {
        panic!("a specification function is not called at run time")
    }

    fn type_info() -> XcqType {
        // What the derive writes: the library's plan for the struct, with
        // the descriptions of the field types.
        let model = DeriveInputModel {
            ident: "Person".to_string(),
            has_attrs: false,
            has_type_params: false,
            data: DataModel::Struct(FieldsModel::Named(vec!["name".to_string(), "age_in_years".to_string()])),
        };
        match plan_type_info(&model).unwrap() {
            TypeInfoPlan::Struct { ident, fields: FieldsPlan::Fields(names) } => describe_struct(
                &ident,
                &names,
                &vec![<String as XcqTypeInfo>::type_info(), <u8 as XcqTypeInfo>::type_info()],
            ),
            _ => unreachable!("the plan of a struct with named fields"),
        }
    }
}

#[test]
fn primitives() {
    assert_type_fn::<bool>(XcqType::Primitive(PrimitiveType::Bool));
    assert_type_fn::<&str>(XcqType::Sequence(Box::new(PrimitiveType::U8.into())));
    assert_type_fn::<i8>(XcqType::Primitive(PrimitiveType::I8));
    assert_type_fn::<[bool]>(XcqType::Sequence(Box::new(PrimitiveType::Bool.into())));
}

#[test]
fn prelude_items() {
    assert_type_fn::<String>(XcqType::Sequence(Box::new(PrimitiveType::U8.into())));

    assert_type_fn::<Option<u128>>(XcqType::Enum(EnumType {
        ident: b"Option".to_vec(),
        variants: vec![
            Variant {
                ident: b"None".to_vec(),
                fields: vec![],
            },
            Variant {
                ident: b"Some".to_vec(),
                fields: vec![Field {
                    ident: vec![],
                    ty: PrimitiveType::U128.into(),
                }],
            },
        ],
    }));

    assert_type_fn::<Result<bool, String>>(XcqType::Enum(EnumType {
        ident: b"Result".to_vec(),
        variants: vec![
            Variant {
                ident: b"Ok".to_vec(),
                fields: vec![Field {
                    ident: vec![],
                    ty: PrimitiveType::Bool.into(),
                }],
            },
            Variant {
                ident: b"Err".to_vec(),
                fields: vec![Field {
                    ident: vec![],
                    ty: XcqType::Sequence(Box::new(PrimitiveType::U8.into())),
                }],
            },
        ],
    }));
}

#[test]
fn tuple_primitives() {
    assert_type_fn::<()>(XcqType::Tuple(vec![]));
    assert_type_fn::<(bool,)>(XcqType::Tuple(vec![PrimitiveType::Bool.into()]));
    assert_type_fn::<(bool, i8)>(XcqType::Tuple(vec![
        PrimitiveType::Bool.into(),
        PrimitiveType::I8.into(),
    ]));
    assert_type_fn::<((i8, i16), (u32, u64))>(XcqType::Tuple(vec![
        XcqType::Tuple(vec![PrimitiveType::I8.into(), PrimitiveType::I16.into()]),
        XcqType::Tuple(vec![PrimitiveType::U32.into(), PrimitiveType::U64.into()]),
    ]));
}

#[test]
fn tests_struct_types() {
    assert_type_fn::<Person>(XcqType::Struct(StructType {
        ident: b"Person".to_vec(),
        fields: vec![
            Field {
                ident: b"name".to_vec(),
                ty: XcqType::Sequence(Box::new(XcqType::Primitive(PrimitiveType::U8.into()))),
            },
            Field {
                ident: b"age_in_years".to_vec(),
                ty: PrimitiveType::U8.into(),
            },
        ],
    }));
}

#[test]
fn derive_struct_types() {
    assert_type_fn::<Person>(XcqType::Struct(StructType {
        ident: "Person".as_bytes().to_vec(),
        fields: vec![
            Field {
                ident: "name".as_bytes().to_vec(),
                ty: XcqType::Sequence(Box::new(XcqType::Primitive(PrimitiveType::U8.into()))),
            },
            Field {
                ident: "age_in_years".as_bytes().to_vec(),
                ty: PrimitiveType::U8.into(),
            },
        ],
    }));
}
