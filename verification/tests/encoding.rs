use xcq::metadata::{
    ExtensionMetadata, ExtensionMetadataIR, Metadata, MethodMetadata, MethodMetadataIR, MethodParamMetadata,
    MethodParamMetadataIR,
};
use xcq::type_info::{meta_type, XcqTypeInfo};
use xcq::types::{EnumType, Field, PrimitiveType, StructType, Variant, XcqType};

#[test]
fn primitive_and_sequence_encodings() {
    assert_eq!(XcqType::Primitive(PrimitiveType::U64).encode(), vec![0, 5]);
    assert_eq!(XcqType::Primitive(PrimitiveType::H256).encode(), vec![0, 14]);
    assert_eq!(<Vec<u8> as XcqTypeInfo>::type_info().encode(), vec![4, 0, 2]);
    assert_eq!(XcqType::Tuple(vec![]).encode(), vec![3, 0]);
}

#[test]
fn struct_and_enum_encodings() {
    let s = XcqType::Struct(StructType {
        ident: b"P".to_vec(),
        fields: vec![Field { ident: b"a".to_vec(), ty: PrimitiveType::Bool.into() }],
    });
    assert_eq!(s.encode(), vec![1, 4, b'P', 4, 4, b'a', 0, 0]);
    let e = XcqType::Enum(EnumType {
        ident: b"E".to_vec(),
        variants: vec![Variant { ident: b"V".to_vec(), fields: vec![] }],
    });
    assert_eq!(e.encode(), vec![2, 4, b'E', 4, 4, b'V', 0]);
}

#[test]
fn different_types_encode_differently() {
    let a = XcqType::Tuple(vec![PrimitiveType::U8.into(), PrimitiveType::U16.into()]);
    let b = XcqType::Tuple(vec![XcqType::Tuple(vec![PrimitiveType::U8.into(), PrimitiveType::U16.into()])]);
    assert_ne!(a.encode(), b.encode());
    assert_ne!(XcqType::Primitive(PrimitiveType::U8).encode(), XcqType::Primitive(PrimitiveType::I8).encode());
}

#[test]
fn metadata_takes_the_types_from_their_handles() {
    let ir = ExtensionMetadataIR {
        name: "ExtensionCore",
        methods: vec![MethodMetadataIR {
            name: "has_extension",
            inputs: vec![MethodParamMetadataIR { name: "id", ty: meta_type::<u64>() }],
            output: meta_type::<bool>(),
        }],
    };
    let m = ExtensionMetadata::from(ir);
    assert_eq!(m.name, "ExtensionCore");
    assert_eq!(m.methods[0].inputs[0].ty, XcqType::Primitive(PrimitiveType::U64));
    assert_eq!(m.methods[0].output, XcqType::Primitive(PrimitiveType::Bool));
}

#[test]
fn meta_types_are_equal_by_their_type_id() {
    assert!(meta_type::<u64>() == meta_type::<u64>());
    assert!(meta_type::<u64>() != meta_type::<u32>());
    assert!(meta_type::<String>() == meta_type::<String>());
    assert!(meta_type::<Box<u64>>() == meta_type::<u64>());
}

#[test]
fn meta_types_of_the_same_type_share_an_id() {
    assert_eq!(meta_type::<u64>().type_id(), meta_type::<u64>().type_id());
    assert_ne!(meta_type::<u64>().type_id(), meta_type::<u32>().type_id());
    assert_eq!(meta_type::<String>().type_info(), XcqType::Sequence(Box::new(PrimitiveType::U8.into())));
}

#[test]
fn metadata_encoding() {
    let ext = ExtensionMetadata {
        name: "E",
        methods: vec![MethodMetadata {
            name: "m",
            inputs: vec![MethodParamMetadata { name: "a", ty: PrimitiveType::U8.into() }],
            output: PrimitiveType::Bool.into(),
        }],
    };
    let expected = vec![4, b'E', 4, 4, b'm', 4, 4, b'a', 0, 2, 0, 0];
    assert_eq!(ext.encode(), expected);
    let mut all = vec![4];
    all.extend_from_slice(&expected);
    assert_eq!(Metadata { extensions: vec![ext] }.encode(), all);
}
