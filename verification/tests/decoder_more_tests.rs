use class_file::attribute::{Attribute, AttributeInfo, CodeAttributeInfo};
use class_file::constant_pool::{
    ConstantClassInfo, ConstantFieldrefInfo, ConstantMethodrefInfo, ConstantNameAndTypeInfo,
    ConstantUtf8Info, CpInfo,
};
use class_file::checker::check_class_file;
use class_file::reader::read_class_file;
use class_file::root::{ClassFile, FieldsInfo, MethodInfo};

#[test]
fn test2_test() {
    let bytes: &[u8] = &[
        0xca, 0xfe, 0xba, 0xbe, 0x00, 0x00, 0x00, 0x3d, 0x00, 0x16, 0x0a, 0x00, 0x02, 0x00, 0x03, 0x07,
        0x00, 0x04, 0x0c, 0x00, 0x05, 0x00, 0x06, 0x01, 0x00, 0x10, 0x6a, 0x61, 0x76, 0x61, 0x2f, 0x6c,
        0x61, 0x6e, 0x67, 0x2f, 0x4f, 0x62, 0x6a, 0x65, 0x63, 0x74, 0x01, 0x00, 0x06, 0x3c, 0x69, 0x6e,
        0x69, 0x74, 0x3e, 0x01, 0x00, 0x03, 0x28, 0x29, 0x56, 0x09, 0x00, 0x08, 0x00, 0x09, 0x07, 0x00,
        0x0a, 0x0c, 0x00, 0x0b, 0x00, 0x0c, 0x01, 0x00, 0x06, 0x50, 0x65, 0x72, 0x73, 0x6f, 0x6e, 0x01,
        0x00, 0x04, 0x6e, 0x61, 0x6d, 0x65, 0x01, 0x00, 0x12, 0x4c, 0x6a, 0x61, 0x76, 0x61, 0x2f, 0x6c,
        0x61, 0x6e, 0x67, 0x2f, 0x53, 0x74, 0x72, 0x69, 0x6e, 0x67, 0x3b, 0x09, 0x00, 0x08, 0x00, 0x0e,
        0x0c, 0x00, 0x0f, 0x00, 0x10, 0x01, 0x00, 0x03, 0x61, 0x67, 0x65, 0x01, 0x00, 0x01, 0x49, 0x01,
        0x00, 0x16, 0x28, 0x4c, 0x6a, 0x61, 0x76, 0x61, 0x2f, 0x6c, 0x61, 0x6e, 0x67, 0x2f, 0x53, 0x74,
        0x72, 0x69, 0x6e, 0x67, 0x3b, 0x49, 0x29, 0x56, 0x01, 0x00, 0x04, 0x43, 0x6f, 0x64, 0x65, 0x01,
        0x00, 0x0f, 0x4c, 0x69, 0x6e, 0x65, 0x4e, 0x75, 0x6d, 0x62, 0x65, 0x72, 0x54, 0x61, 0x62, 0x6c,
        0x65, 0x01, 0x00, 0x0a, 0x53, 0x6f, 0x75, 0x72, 0x63, 0x65, 0x46, 0x69, 0x6c, 0x65, 0x01, 0x00,
        0x0b, 0x50, 0x65, 0x72, 0x73, 0x6f, 0x6e, 0x2e, 0x6a, 0x61, 0x76, 0x61, 0x00, 0x20, 0x00, 0x08,
        0x00, 0x02, 0x00, 0x00, 0x00, 0x02, 0x00, 0x00, 0x00, 0x0b, 0x00, 0x0c, 0x00, 0x00, 0x00, 0x02,
        0x00, 0x0f, 0x00, 0x10, 0x00, 0x00, 0x00, 0x01, 0x00, 0x00, 0x00, 0x05, 0x00, 0x11, 0x00, 0x01,
        0x00, 0x12, 0x00, 0x00, 0x00, 0x33, 0x00, 0x02, 0x00, 0x03, 0x00, 0x00, 0x00, 0x0f, 0x2a, 0xb7,
        0x00, 0x01, 0x2a, 0x2b, 0xb5, 0x00, 0x07, 0x2a, 0x1c, 0xb5, 0x00, 0x0d, 0xb1, 0x00, 0x00, 0x00,
        0x01, 0x00, 0x13, 0x00, 0x00, 0x00, 0x12, 0x00, 0x04, 0x00, 0x00, 0x00, 0x06, 0x00, 0x04, 0x00,
        0x07, 0x00, 0x09, 0x00, 0x08, 0x00, 0x0e, 0x00, 0x09, 0x00, 0x01, 0x00, 0x14, 0x00, 0x00, 0x00,
        0x02, 0x00, 0x15,
    ];

    let class_file = read_class_file(bytes.to_vec()).unwrap();

    assert_eq!(class_file, ClassFile {
        magic: [0xca, 0xfe, 0xba, 0xbe],
        minor_version: 0,
        major_version: 61,
        constant_pool_count: 22,
        constant_pool: vec![
            CpInfo::Methodref(ConstantMethodrefInfo { tag: 10, class_index: 2, name_and_type_index: 3 }),
            CpInfo::Class(ConstantClassInfo { tag: 7, name_index: 4 }),
            CpInfo::NameAndType(ConstantNameAndTypeInfo { tag: 12, name_index: 5, descriptor_index: 6 }),
            CpInfo::Utf8(ConstantUtf8Info { tag: 1, length: 16, bytes: "java/lang/Object".as_bytes().to_vec() }),
            CpInfo::Utf8(ConstantUtf8Info { tag: 1, length: 6, bytes: "<init>".as_bytes().to_vec() }),
            CpInfo::Utf8(ConstantUtf8Info { tag: 1, length: 3, bytes: "()V".as_bytes().to_vec() }),
            CpInfo::Fieldref(ConstantFieldrefInfo { tag: 9, class_index: 8, name_and_type_index: 9 }),
            CpInfo::Class(ConstantClassInfo { tag: 7, name_index: 10 }),
            CpInfo::NameAndType(ConstantNameAndTypeInfo { tag: 12, name_index: 11, descriptor_index: 12 }),
            CpInfo::Utf8(ConstantUtf8Info { tag: 1, length: 6, bytes: "Person".as_bytes().to_vec() }),
            CpInfo::Utf8(ConstantUtf8Info { tag: 1, length: 4, bytes: "name".as_bytes().to_vec() }),
            CpInfo::Utf8(ConstantUtf8Info { tag: 1, length: 18, bytes: "Ljava/lang/String;".as_bytes().to_vec() }),
            CpInfo::Fieldref(ConstantFieldrefInfo { tag: 9, class_index: 8, name_and_type_index: 14 }),
            CpInfo::NameAndType(ConstantNameAndTypeInfo { tag: 12, name_index: 15, descriptor_index: 16 }),
            CpInfo::Utf8(ConstantUtf8Info { tag: 1, length: 3, bytes: "age".as_bytes().to_vec() }),
            CpInfo::Utf8(ConstantUtf8Info { tag: 1, length: 1, bytes: "I".as_bytes().to_vec() }),
            CpInfo::Utf8(ConstantUtf8Info { tag: 1, length: 22, bytes: "(Ljava/lang/String;I)V".as_bytes().to_vec() }),
            CpInfo::Utf8(ConstantUtf8Info { tag: 1, length: 4, bytes: "Code".as_bytes().to_vec() }),
            CpInfo::Utf8(ConstantUtf8Info { tag: 1, length: 15, bytes: "LineNumberTable".as_bytes().to_vec() }),
            CpInfo::Utf8(ConstantUtf8Info { tag: 1, length: 10, bytes: "SourceFile".as_bytes().to_vec() }),
            CpInfo::Utf8(ConstantUtf8Info { tag: 1, length: 11, bytes: "Person.java".as_bytes().to_vec() }),
        ],
        access_flags: 0x0020,
        this_class: 8,
        super_class: 2,
        interfaces_count: 0,
        interfaces: vec![],
        fields_count: 2,
        fields: vec![
            FieldsInfo {
                access_flags: 0x0000,
                name_index: 11,
                descriptor_index: 12,
                attributes_count: 0,
                attributes: vec![],
            },
            FieldsInfo {
                access_flags: 0x0002,
                name_index: 15,
                descriptor_index: 16,
                attributes_count: 0,
                attributes: vec![],
            },
        ],
        methods_count: 1,
        methods: vec![
            MethodInfo {
                access_flags: 0x0000,
                name_index: 5,
                descriptor_index: 17,
                attributes_count: 1,
                attributes: vec![
                    Attribute::Code(CodeAttributeInfo {
                        attribute_name_index: 0x0012,
                        attribute_length: 51,
                        max_stack: 2,
                        max_locals: 3,
                        code_length: 15,
                        code: vec![0x2a, 0xb7, 0x00, 0x01, 0x2a, 0x2b, 0xb5, 0x00, 0x07, 0x2a, 0x1c, 0xb5, 0x00, 0x0d, 0xb1],
                        exception_table_length: 0,
                        exception_table: vec![],
                        attributes_count: 1,
                        attributes: vec![
                            Attribute::General(AttributeInfo {
                                attribute_name_index: 0x0013,
                                attribute_length: 18,
                                info: vec![0x00, 0x04, 0x00, 0x00, 0x00, 0x06, 0x00, 0x04, 0x00, 0x07, 0x00, 0x09, 0x00, 0x08, 0x00, 0x0e, 0x00, 0x09],
                            }),
                        ],
                    }),
                ],
            },
        ],
        attributes_count: 1,
        attributes: vec![
            Attribute::General(AttributeInfo {
                attribute_name_index: 0x0014,
                attribute_length: 2,
                info: vec![0x00, 0x15],
            }),
        ],
    });

    check_class_file(&class_file).unwrap();
}

fn minimal_unit_bytes() -> Vec<u8> {
    // a unit whose pool holds a single text entry "Code": one method whose
    // name index points at it carries one executable-code attribute
    vec![
        0xca, 0xfe, 0xba, 0xbe, // magic
        0x00, 0x00, 0x00, 0x3d, // version 61.0
        0x00, 0x02, // pool count 2: one entry
        0x01, 0x00, 0x04, 0x43, 0x6f, 0x64, 0x65, // Utf8 "Code"
        0x00, 0x00, // access flags
        0x00, 0x00, // this class
        0x00, 0x00, // super class
        0x00, 0x00, // interface count
        0x00, 0x00, // field count
        0x00, 0x01, // method count
        0x00, 0x00, // method access flags
        0x00, 0x01, // method name index -> "Code"
        0x00, 0x01, // method descriptor index
        0x00, 0x01, // method attribute count
        0x00, 0x01, // attribute name index -> "Code"
        0x00, 0x00, 0x00, 0x11, // attribute length 17
        0x00, 0x01, // max_stack
        0x00, 0x01, // max_locals
        0x00, 0x00, 0x00, 0x05, // code length
        0x2a, 0xb7, 0x00, 0x01, 0xb1, // code
        0x00, 0x00, // exception table length
        0x00, 0x00, // nested attribute count
        0x00, 0x00, // top-level attribute count
    ]
}

#[test]
fn module_unit_reencodes_exactly() {
    let bytes = vec![
        0xca, 0xfe, 0xba, 0xbe, 0x00, 0x00, 0x00, 0x3d, 0x00, 0x02, 0x01, 0x00, 0x04, 0x43, 0x6f,
        0x64, 0x65, 0x00, 0x00, 0x00, 0x00, 0x00, 0x00, 0x00, 0x00, 0x00, 0x00, 0x00, 0x00, 0x00,
        0x00,
    ];
    // a deliberately tiny unit: pool of one text entry, no members
    let decoded = read_class_file(bytes.clone()).unwrap();
    assert_eq!(class_file::writer::write_class_file(&decoded), bytes);
}

#[test]
fn minimal_unit_decodes_and_checks() {
    let bytes = minimal_unit_bytes();
    let class_file = class_file::root::ClassFile::load(&bytes).unwrap();
    assert_eq!(class_file.methods_count, 1);
    match &class_file.methods[0].attributes[0] {
        Attribute::Code(code) => {
            assert_eq!(code.max_stack, 1);
            assert_eq!(code.max_locals, 1);
            assert_eq!(code.code, vec![0x2a, 0xb7, 0x00, 0x01, 0xb1]);
            assert_eq!(code.attributes_count, 0);
        },
        other => panic!("expected an executable-code attribute, found {:?}", other),
    }
}

#[test]
fn minimal_unit_with_overlong_attribute_count_is_truncated() {
    let mut bytes = minimal_unit_bytes();
    let n = bytes.len();
    // request one more top-level attribute than there are bytes for
    bytes[n - 1] = 0x01;
    let e = read_class_file(bytes.clone()).unwrap_err();
    assert!(e.message.contains("Input is shorter than required and cannot be read."));
    // the failure points at the offset where the extra attribute header would begin
    let mut expected = String::from("offset: ");
    expected.push_str(&n.to_string());
    assert!(e.message.contains(&expected));
}

#[test]
fn constructor_with_class_return_type_is_rejected() {
    let pool = vec![
        CpInfo::Methodref(ConstantMethodrefInfo { tag: 10, class_index: 2, name_and_type_index: 3 }),
        CpInfo::Class(ConstantClassInfo { tag: 7, name_index: 4 }),
        CpInfo::NameAndType(ConstantNameAndTypeInfo { tag: 12, name_index: 5, descriptor_index: 6 }),
        CpInfo::Utf8(ConstantUtf8Info { tag: 1, length: 3, bytes: "Foo".as_bytes().to_vec() }),
        CpInfo::Utf8(ConstantUtf8Info { tag: 1, length: 6, bytes: "<init>".as_bytes().to_vec() }),
        CpInfo::Utf8(ConstantUtf8Info {
            tag: 1,
            length: 20,
            bytes: "()Ljava/lang/Object;".as_bytes().to_vec(),
        }),
    ];
    let e = class_file::checker::check_constant_pool(&pool, 61).unwrap_err();
    assert!(e.message.contains("return type of <init> must be void."));
}

#[test]
fn constructor_with_void_return_type_is_accepted() {
    let pool = vec![
        CpInfo::Methodref(ConstantMethodrefInfo { tag: 10, class_index: 2, name_and_type_index: 3 }),
        CpInfo::Class(ConstantClassInfo { tag: 7, name_index: 4 }),
        CpInfo::NameAndType(ConstantNameAndTypeInfo { tag: 12, name_index: 5, descriptor_index: 6 }),
        CpInfo::Utf8(ConstantUtf8Info { tag: 1, length: 3, bytes: "Foo".as_bytes().to_vec() }),
        CpInfo::Utf8(ConstantUtf8Info { tag: 1, length: 6, bytes: "<init>".as_bytes().to_vec() }),
        CpInfo::Utf8(ConstantUtf8Info { tag: 1, length: 3, bytes: "()V".as_bytes().to_vec() }),
    ];
    assert!(class_file::checker::check_constant_pool(&pool, 61).is_ok());
}
