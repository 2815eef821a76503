use class_file::attribute::{Attribute, AttributeInfo, CodeAttributeInfo, ModuleAttribute, Require};
use class_file::constant_pool::{
    ConstantClassInfo, ConstantFieldrefInfo, ConstantMethodrefInfo, ConstantModuleInfo,
    ConstantNameAndTypeInfo, ConstantUtf8Info, CpInfo,
};
use class_file::checker::check_class_file;
use class_file::reader::read_class_file;
use class_file::root::{ClassFile, MethodInfo};

fn sample1_bytes() -> Vec<u8> {
    vec![
        0xca, 0xfe, 0xba, 0xbe, 0x00, 0x00, 0x00, 0x3d, 0x00, 0x13, 0x0a, 0x00, 0x02, 0x00, 0x03, 0x07,
        0x00, 0x04, 0x0c, 0x00, 0x05, 0x00, 0x06, 0x01, 0x00, 0x10, 0x6a, 0x61, 0x76, 0x61, 0x2f, 0x6c,
        0x61, 0x6e, 0x67, 0x2f, 0x4f, 0x62, 0x6a, 0x65, 0x63, 0x74, 0x01, 0x00, 0x06, 0x3c, 0x69, 0x6e,
        0x69, 0x74, 0x3e, 0x01, 0x00, 0x03, 0x28, 0x29, 0x56, 0x0a, 0x00, 0x08, 0x00, 0x09, 0x07, 0x00,
        0x0a, 0x0c, 0x00, 0x0b, 0x00, 0x0c, 0x01, 0x00, 0x07, 0x53, 0x61, 0x6d, 0x70, 0x6c, 0x65, 0x31,
        0x01, 0x00, 0x03, 0x61, 0x64, 0x64, 0x01, 0x00, 0x05, 0x28, 0x49, 0x49, 0x29, 0x49, 0x01, 0x00,
        0x04, 0x43, 0x6f, 0x64, 0x65, 0x01, 0x00, 0x0f, 0x4c, 0x69, 0x6e, 0x65, 0x4e, 0x75, 0x6d, 0x62,
        0x65, 0x72, 0x54, 0x61, 0x62, 0x6c, 0x65, 0x01, 0x00, 0x04, 0x70, 0x72, 0x6f, 0x67, 0x01, 0x00,
        0x03, 0x28, 0x29, 0x49, 0x01, 0x00, 0x0a, 0x53, 0x6f, 0x75, 0x72, 0x63, 0x65, 0x46, 0x69, 0x6c,
        0x65, 0x01, 0x00, 0x0c, 0x53, 0x61, 0x6d, 0x70, 0x6c, 0x65, 0x31, 0x2e, 0x6a, 0x61, 0x76, 0x61,
        0x00, 0x20, 0x00, 0x08, 0x00, 0x02, 0x00, 0x00, 0x00, 0x00, 0x00, 0x03, 0x00, 0x00, 0x00, 0x05,
        0x00, 0x06, 0x00, 0x01, 0x00, 0x0d, 0x00, 0x00, 0x00, 0x1d, 0x00, 0x01, 0x00, 0x01, 0x00, 0x00,
        0x00, 0x05, 0x2a, 0xb7, 0x00, 0x01, 0xb1, 0x00, 0x00, 0x00, 0x01, 0x00, 0x0e, 0x00, 0x00, 0x00,
        0x06, 0x00, 0x01, 0x00, 0x00, 0x00, 0x01, 0x00, 0x09, 0x00, 0x0f, 0x00, 0x10, 0x00, 0x01, 0x00,
        0x0d, 0x00, 0x00, 0x00, 0x31, 0x00, 0x02, 0x00, 0x03, 0x00, 0x00, 0x00, 0x0d, 0x04, 0x3b, 0x10,
        0x2a, 0x3c, 0x1a, 0x1b, 0xb8, 0x00, 0x07, 0x3d, 0x1c, 0xac, 0x00, 0x00, 0x00, 0x01, 0x00, 0x0e,
        0x00, 0x00, 0x00, 0x12, 0x00, 0x04, 0x00, 0x00, 0x00, 0x04, 0x00, 0x02, 0x00, 0x05, 0x00, 0x05,
        0x00, 0x06, 0x00, 0x0b, 0x00, 0x07, 0x00, 0x09, 0x00, 0x0b, 0x00, 0x0c, 0x00, 0x01, 0x00, 0x0d,
        0x00, 0x00, 0x00, 0x1c, 0x00, 0x02, 0x00, 0x02, 0x00, 0x00, 0x00, 0x04, 0x1a, 0x1b, 0x60, 0xac,
        0x00, 0x00, 0x00, 0x01, 0x00, 0x0e, 0x00, 0x00, 0x00, 0x06, 0x00, 0x01, 0x00, 0x00, 0x00, 0x0b,
        0x00, 0x01, 0x00, 0x11, 0x00, 0x00, 0x00, 0x02, 0x00, 0x12,
    ]
}

#[test]
fn test_1_test() {
    let bytes = sample1_bytes();

    let class_file = read_class_file(bytes).unwrap();

    assert_eq!(class_file, ClassFile {
        magic: [0xca, 0xfe, 0xba, 0xbe],
        minor_version: 0,
        major_version: 61,
        constant_pool_count: 19,
        constant_pool: vec![
            CpInfo::Methodref(ConstantMethodrefInfo { tag: 10, class_index: 2, name_and_type_index: 3 }),
            CpInfo::Class(ConstantClassInfo { tag: 7, name_index: 4 }),
            CpInfo::NameAndType(ConstantNameAndTypeInfo { tag: 12, name_index: 5, descriptor_index: 6 }),
            CpInfo::Utf8(ConstantUtf8Info { tag: 1, length: 16, bytes: "java/lang/Object".as_bytes().to_vec() }),
            CpInfo::Utf8(ConstantUtf8Info { tag: 1, length: 6, bytes: "<init>".as_bytes().to_vec() }),
            CpInfo::Utf8(ConstantUtf8Info { tag: 1, length: 3, bytes: "()V".as_bytes().to_vec() }),
            CpInfo::Methodref(ConstantMethodrefInfo { tag: 10, class_index: 8, name_and_type_index: 9 }),
            CpInfo::Class(ConstantClassInfo { tag: 7, name_index: 10 }),
            CpInfo::NameAndType(ConstantNameAndTypeInfo { tag: 12, name_index: 11, descriptor_index: 12 }),
            CpInfo::Utf8(ConstantUtf8Info { tag: 1, length: 7, bytes: "Sample1".as_bytes().to_vec() }),
            CpInfo::Utf8(ConstantUtf8Info { tag: 1, length: 3, bytes: "add".as_bytes().to_vec() }),
            CpInfo::Utf8(ConstantUtf8Info { tag: 1, length: 5, bytes: "(II)I".as_bytes().to_vec() }),
            CpInfo::Utf8(ConstantUtf8Info { tag: 1, length: 4, bytes: "Code".as_bytes().to_vec() }),
            CpInfo::Utf8(ConstantUtf8Info { tag: 1, length: 15, bytes: "LineNumberTable".as_bytes().to_vec() }),
            CpInfo::Utf8(ConstantUtf8Info { tag: 1, length: 4, bytes: "prog".as_bytes().to_vec() }),
            CpInfo::Utf8(ConstantUtf8Info { tag: 1, length: 3, bytes: "()I".as_bytes().to_vec() }),
            CpInfo::Utf8(ConstantUtf8Info { tag: 1, length: 10, bytes: "SourceFile".as_bytes().to_vec() }),
            CpInfo::Utf8(ConstantUtf8Info { tag: 1, length: 12, bytes: "Sample1.java".as_bytes().to_vec() }),
        ],
        access_flags: 0x0020,
        this_class: 8,
        super_class: 2,
        interfaces_count: 0,
        interfaces: vec![],
        fields_count: 0,
        fields: vec![],
        methods_count: 3,
        methods: vec![
            MethodInfo {
                access_flags: 0x0000,
                name_index: 5,
                descriptor_index: 6,
                attributes_count: 1,
                attributes: vec![
                    Attribute::Code(CodeAttributeInfo {
                        attribute_name_index: 0x000d,
                        attribute_length: 29,
                        max_stack: 1,
                        max_locals: 1,
                        code_length: 5,
                        code: vec![0x2a, 0xb7, 0x00, 0x01, 0xb1],
                        exception_table_length: 0,
                        exception_table: vec![],
                        attributes_count: 1,
                        attributes: vec![
                            Attribute::General(AttributeInfo {
                                attribute_name_index: 0x000e,
                                attribute_length: 6,
                                info: vec![0x00, 0x01, 0x00, 0x00, 0x00, 0x01],
                            }),
                        ],
                    }),
                ],
            },
            MethodInfo {
                access_flags: 0x0009,
                name_index: 15,
                descriptor_index: 16,
                attributes_count: 1,
                attributes: vec![
                    Attribute::Code(CodeAttributeInfo {
                        attribute_name_index: 0x000d,
                        attribute_length: 49,
                        max_stack: 2,
                        max_locals: 3,
                        code_length: 13,
                        code: vec![0x04, 0x3b, 0x10, 0x2a, 0x3c, 0x1a, 0x1b, 0xb8, 0x00, 0x07, 0x3d, 0x1c, 0xac],
                        exception_table_length: 0,
                        exception_table: vec![],
                        attributes_count: 1,
                        attributes: vec![
                            Attribute::General(AttributeInfo {
                                attribute_name_index: 0x000e,
                                attribute_length: 18,
                                info: vec![0x00, 0x04, 0x00, 0x00, 0x00, 0x04, 0x00, 0x02, 0x00, 0x05, 0x00, 0x05, 0x00, 0x06, 0x00, 0x0b, 0x00, 0x07],
                            }),
                        ],
                    }),
                ],
            },
            MethodInfo {
                access_flags: 0x0009,
                name_index: 11,
                descriptor_index: 12,
                attributes_count: 1,
                attributes: vec![
                    Attribute::Code(CodeAttributeInfo {
                        attribute_name_index: 0x000d,
                        attribute_length: 28,
                        max_stack: 2,
                        max_locals: 2,
                        code_length: 4,
                        code: vec![0x1a, 0x1b, 0x60, 0xac],
                        exception_table_length: 0,
                        exception_table: vec![],
                        attributes_count: 1,
                        attributes: vec![
                            Attribute::General(AttributeInfo {
                                attribute_name_index: 0x000e,
                                attribute_length: 6,
                                info: vec![0x00, 0x01, 0x00, 0x00, 0x00, 0x0b],
                            }),
                        ],
                    }),
                ],
            },
        ],
        attributes_count: 1,
        attributes: vec![
            Attribute::General(AttributeInfo {
                attribute_name_index: 0x0011,
                attribute_length: 2,
                info: vec![0x00, 0x12],
            }),
        ],
    });

    check_class_file(&class_file).unwrap();
}

#[test]
fn test_module_test() {
    let bytes: Vec<u8> = vec![
        0xca, 0xfe, 0xba, 0xbe, 0x00, 0x00, 0x00, 0x3d, 0x00, 0x0d, 0x07, 0x00, 0x02, 0x01, 0x00, 0x0b,
        0x6d, 0x6f, 0x64, 0x75, 0x6c, 0x65, 0x2d, 0x69, 0x6e, 0x66, 0x6f, 0x01, 0x00, 0x0a, 0x53, 0x6f,
        0x75, 0x72, 0x63, 0x65, 0x46, 0x69, 0x6c, 0x65, 0x01, 0x00, 0x10, 0x6d, 0x6f, 0x64, 0x75, 0x6c,
        0x65, 0x2d, 0x69, 0x6e, 0x66, 0x6f, 0x2e, 0x6a, 0x61, 0x76, 0x61, 0x01, 0x00, 0x06, 0x4d, 0x6f,
        0x64, 0x75, 0x6c, 0x65, 0x13, 0x00, 0x07, 0x01, 0x00, 0x03, 0x66, 0x6f, 0x6f, 0x13, 0x00, 0x09,
        0x01, 0x00, 0x09, 0x6a, 0x61, 0x76, 0x61, 0x2e, 0x62, 0x61, 0x73, 0x65, 0x01, 0x00, 0x06, 0x31,
        0x37, 0x2e, 0x30, 0x2e, 0x35, 0x13, 0x00, 0x0c, 0x01, 0x00, 0x0d, 0x6a, 0x61, 0x76, 0x61, 0x2e,
        0x6e, 0x65, 0x74, 0x2e, 0x68, 0x74, 0x74, 0x70, 0x80, 0x00, 0x00, 0x01, 0x00, 0x00, 0x00, 0x00,
        0x00, 0x00, 0x00, 0x00, 0x00, 0x02, 0x00, 0x03, 0x00, 0x00, 0x00, 0x02, 0x00, 0x04, 0x00, 0x05,
        0x00, 0x00, 0x00, 0x1c, 0x00, 0x06, 0x00, 0x00, 0x00, 0x00, 0x00, 0x02, 0x00, 0x08, 0x80, 0x00,
        0x00, 0x0a, 0x00, 0x0b, 0x00, 0x00, 0x00, 0x0a, 0x00, 0x00, 0x00, 0x00, 0x00, 0x00, 0x00, 0x00,
    ];

    let class_file = read_class_file(bytes).unwrap();

    println!("{:?}", class_file);

    assert_eq!(class_file, ClassFile {
        magic: [0xca, 0xfe, 0xba, 0xbe],
        minor_version: 0,
        major_version: 61,
        constant_pool_count: 13,
        constant_pool: vec![
            CpInfo::Class(ConstantClassInfo { tag: 7, name_index: 2 }),
            CpInfo::Utf8(ConstantUtf8Info { tag: 1, length: 11, bytes: "module-info".as_bytes().to_vec() }),
            CpInfo::Utf8(ConstantUtf8Info { tag: 1, length: 10, bytes: "SourceFile".as_bytes().to_vec() }),
            CpInfo::Utf8(ConstantUtf8Info { tag: 1, length: 16, bytes: "module-info.java".as_bytes().to_vec() }),
            CpInfo::Utf8(ConstantUtf8Info { tag: 1, length: 6, bytes: "Module".as_bytes().to_vec() }),
            CpInfo::Module(ConstantModuleInfo { tag: 19, name_index: 7 }),
            CpInfo::Utf8(ConstantUtf8Info { tag: 1, length: 3, bytes: "foo".as_bytes().to_vec() }),
            CpInfo::Module(ConstantModuleInfo { tag: 19, name_index: 9 }),
            CpInfo::Utf8(ConstantUtf8Info { tag: 1, length: 9, bytes: "java.base".as_bytes().to_vec() }),
            CpInfo::Utf8(ConstantUtf8Info { tag: 1, length: 6, bytes: "17.0.5".as_bytes().to_vec() }),
            CpInfo::Module(ConstantModuleInfo { tag: 19, name_index: 12 }),
            CpInfo::Utf8(ConstantUtf8Info { tag: 1, length: 13, bytes: "java.net.http".as_bytes().to_vec() }),
        ],
        access_flags: 0x8000,
        this_class: 1,
        super_class: 0,
        interfaces_count: 0,
        interfaces: vec![],
        fields_count: 0,
        fields: vec![],
        methods_count: 0,
        methods: vec![],
        attributes_count: 2,
        attributes: vec![
            Attribute::General(AttributeInfo {
                attribute_name_index: 3,
                attribute_length: 2,
                info: vec![0x00, 0x04],
            }),
            Attribute::Module(ModuleAttribute {
                attribute_name_index: 5,
                attribute_length: 28,
                module_name_index: 6,
                module_flags: 0,
                module_version_index: 0,
                requires_count: 2,
                requires: vec![
                    Require {
                        requires_index: 8,
                        requires_flags: 32768,
                        requires_version_index: 10,
                    },
                    Require {
                        requires_index: 11,
                        requires_flags: 0,
                        requires_version_index: 10,
                    },
                ],
                exports_count: 0,
                exports: vec![],
                opens_count: 0,
                opens: vec![],
                uses_count: 0,
                uses_index: vec![],
                provides_count: 0,
                provides: vec![],
            }),
        ],
    });

    check_class_file(&class_file).unwrap();
}

#[test]
fn decode_fails_on_every_strict_prefix() {
    let bytes = sample1_bytes();
    for cut in 0..bytes.len() {
        let prefix = bytes[..cut].to_vec();
        assert!(read_class_file(prefix).is_err());
    }
}

#[test]
fn decode_fails_on_trailing_bytes() {
    let bytes = sample1_bytes();
    for extra in [vec![0x00u8], vec![0xffu8, 0x01u8]] {
        let mut longer = bytes.clone();
        longer.extend(extra);
        assert!(read_class_file(longer).is_err());
    }
}

#[test]
fn decode_fails_on_bad_magic() {
    let mut bytes = sample1_bytes();
    bytes[0] = 0xcb;
    assert!(read_class_file(bytes).is_err());
}

#[test]
fn decode_fails_on_unsupported_tag() {
    // magic, version 61.0, pool count 2, then one entry with the unused tag 2
    let bytes = vec![
        0xca, 0xfe, 0xba, 0xbe, 0x00, 0x00, 0x00, 0x3d, 0x00, 0x02, 0x02, 0x00, 0x00,
    ];
    let e = read_class_file(bytes).unwrap_err();
    assert!(e.message.contains("unsupported tag 2"));
}

#[test]
fn decode_fails_on_unsupported_version() {
    let mut bytes = sample1_bytes();
    bytes[7] = 0x3f; // major version 63
    assert!(read_class_file(bytes).is_err());
}

#[test]
fn reencoding_reproduces_the_original_bytes() {
    let bytes = sample1_bytes();
    let class_file = read_class_file(bytes.clone()).unwrap();
    assert_eq!(class_file::writer::write_class_file(&class_file), bytes);
}
