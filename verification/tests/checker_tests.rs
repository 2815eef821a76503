use class_file::checker::{check_constant_pool, check_magic, check_version};
use class_file::constant_pool::{
    ConstantClassInfo, ConstantFieldrefInfo, ConstantInterfaceMethodrefInfo,
    ConstantMethodHandleInfo, ConstantMethodrefInfo, ConstantNameAndTypeInfo, ConstantUtf8Info,
    CpInfo,
};

#[test]
fn magic_marker_is_required() {
    assert!(check_magic(&[0xca, 0xfe, 0xba, 0xbe]).is_ok());
    assert!(check_magic(&[0xca, 0xfe, 0xba, 0xbf]).is_err());
    assert!(check_magic(&[0x00, 0x00, 0x00, 0x00]).is_err());
}

#[test]
fn version_ranges_are_enforced() {
    assert!(check_version(0, 45).is_ok());
    assert!(check_version(3, 45).is_ok());
    assert!(check_version(3, 55).is_ok());
    assert!(check_version(0, 56).is_ok());
    assert!(check_version(65535, 61).is_ok());
    assert!(check_version(1, 56).is_err());
    assert!(check_version(1, 61).is_err());
    assert!(check_version(0, 44).is_err());
    assert!(check_version(0, 62).is_err());
}

/// A pool whose first slot is a method handle of the given kind, referring
/// through slot 2 to a field, method or interface-method reference whose
/// resolved name is `name`.
fn method_handle_pool(kind: u8, target_tag: u8, name: &str) -> Vec<CpInfo> {
    let target = match target_tag {
        9 => CpInfo::Fieldref(ConstantFieldrefInfo { tag: 9, class_index: 3, name_and_type_index: 4 }),
        10 => CpInfo::Methodref(ConstantMethodrefInfo { tag: 10, class_index: 3, name_and_type_index: 4 }),
        11 => CpInfo::InterfaceMethodref(ConstantInterfaceMethodrefInfo { tag: 11, class_index: 3, name_and_type_index: 4 }),
        other => panic!("no such reference tag: {}", other),
    };
    // a field reference's descriptor must be a field type, a method
    // reference's a method descriptor
    let descriptor = if target_tag == 9 { "I" } else { "()V" };
    vec![
        CpInfo::MethodHandle(ConstantMethodHandleInfo { tag: 15, reference_kind: kind, reference_index: 2 }),
        target,
        CpInfo::Class(ConstantClassInfo { tag: 7, name_index: 5 }),
        CpInfo::NameAndType(ConstantNameAndTypeInfo { tag: 12, name_index: 6, descriptor_index: 7 }),
        CpInfo::Utf8(ConstantUtf8Info { tag: 1, length: 3, bytes: "Foo".as_bytes().to_vec() }),
        CpInfo::Utf8(ConstantUtf8Info { tag: 1, length: name.len() as u16, bytes: name.as_bytes().to_vec() }),
        CpInfo::Utf8(ConstantUtf8Info { tag: 1, length: descriptor.len() as u16, bytes: descriptor.as_bytes().to_vec() }),
    ]
}

#[test]
fn method_handle_kind_table_is_enforced() {
    for major in [51u16, 52u16] {
        for kind in 1u8..=9u8 {
            for target_tag in [9u8, 10u8, 11u8] {
                let name = if kind == 8 { "<init>" } else { "run" };
                let pool = method_handle_pool(kind, target_tag, name);
                let accepted = check_constant_pool(&pool, major).is_ok();
                let expected = match (kind, target_tag) {
                    (1..=4, 9) => true,
                    (1..=4, _) => false,
                    (5 | 8, 10) => true,
                    (5 | 8, _) => false,
                    (6 | 7, 10) => true,
                    (6 | 7, 11) => major >= 52,
                    (6 | 7, _) => false,
                    (9, 11) => true,
                    (9, _) => false,
                    _ => unreachable!(),
                };
                assert_eq!(
                    accepted, expected,
                    "kind {} target tag {} major {}",
                    kind, target_tag, major
                );
            }
        }
    }
}

#[test]
fn method_handle_kind_out_of_range_is_rejected() {
    for kind in [0u8, 10u8, 255u8] {
        let pool = method_handle_pool(kind, 10, "run");
        assert!(check_constant_pool(&pool, 61).is_err(), "kind {}", kind);
    }
}

#[test]
fn method_handle_special_names_are_policed() {
    // kinds 5, 6, 7 and 9 must not name a constructor or initializer
    for (kind, target_tag) in [(5u8, 10u8), (6, 10), (7, 10), (9, 11)] {
        for name in ["<init>", "<clinit>"] {
            let pool = method_handle_pool(kind, target_tag, name);
            assert!(
                check_constant_pool(&pool, 61).is_err(),
                "kind {} name {}",
                kind,
                name
            );
        }
    }
    // kind 8 must name the constructor
    let pool = method_handle_pool(8, 10, "run");
    assert!(check_constant_pool(&pool, 61).is_err());
    let pool = method_handle_pool(8, 10, "<init>");
    assert!(check_constant_pool(&pool, 61).is_ok());
}

#[test]
fn dangling_indices_are_rejected() {
    // a Class entry whose name index is 0
    let pool = vec![CpInfo::Class(ConstantClassInfo { tag: 7, name_index: 0 })];
    assert!(check_constant_pool(&pool, 61).is_err());
    // a Class entry whose name index is past the table
    let pool = vec![CpInfo::Class(ConstantClassInfo { tag: 7, name_index: 2 })];
    assert!(check_constant_pool(&pool, 61).is_err());
    // a Fieldref whose descriptor does not parse as a field type
    let pool = vec![
        CpInfo::Fieldref(ConstantFieldrefInfo { tag: 9, class_index: 2, name_and_type_index: 3 }),
        CpInfo::Class(ConstantClassInfo { tag: 7, name_index: 4 }),
        CpInfo::NameAndType(ConstantNameAndTypeInfo { tag: 12, name_index: 4, descriptor_index: 5 }),
        CpInfo::Utf8(ConstantUtf8Info { tag: 1, length: 3, bytes: "Foo".as_bytes().to_vec() }),
        CpInfo::Utf8(ConstantUtf8Info { tag: 1, length: 3, bytes: "BBB".as_bytes().to_vec() }),
    ];
    assert!(check_constant_pool(&pool, 61).is_err());
}
