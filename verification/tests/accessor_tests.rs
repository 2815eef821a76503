use class_file::constant_pool::{
    ConstantClassInfo, ConstantIntegerInfo, ConstantLongInfo, ConstantMethodrefInfo,
    ConstantNameAndTypeInfo, ConstantPool, ConstantUtf8Info, CpInfo,
};
use class_file::cp_accessor::{
    ClassCpAccessor, CpAccessor, IntegerCpAccessor, LongCpAccessor, Utf8CpAccessor,
};

fn sample_pool() -> Vec<CpInfo> {
    vec![
        CpInfo::Methodref(ConstantMethodrefInfo { tag: 0x0a, class_index: 0x02, name_and_type_index: 0x03 }),
        CpInfo::Class(ConstantClassInfo { tag: 0x07, name_index: 0x04 }),
        CpInfo::NameAndType(ConstantNameAndTypeInfo { tag: 0x0c, name_index: 0x05, descriptor_index: 0x06 }),
        CpInfo::Utf8(ConstantUtf8Info { tag: 0x01, length: 0x10, bytes: "java/lang/Object".as_bytes().to_vec() }),
        CpInfo::Utf8(ConstantUtf8Info { tag: 0x01, length: 0x06, bytes: "<init>".as_bytes().to_vec() }),
        CpInfo::Utf8(ConstantUtf8Info { tag: 0x01, length: 0x03, bytes: "()V".as_bytes().to_vec() }),
        CpInfo::Methodref(ConstantMethodrefInfo { tag: 0x0a, class_index: 0x08, name_and_type_index: 0x09 }),
        CpInfo::Class(ConstantClassInfo { tag: 0x07, name_index: 0x0a }),
        CpInfo::NameAndType(ConstantNameAndTypeInfo { tag: 0x0c, name_index: 0x0b, descriptor_index: 0x0c }),
        CpInfo::Utf8(ConstantUtf8Info { tag: 0x01, length: 0x07, bytes: "Sample1".as_bytes().to_vec() }),
        CpInfo::Utf8(ConstantUtf8Info { tag: 0x01, length: 0x03, bytes: "add".as_bytes().to_vec() }),
        CpInfo::Utf8(ConstantUtf8Info { tag: 0x01, length: 0x05, bytes: "(II)I".as_bytes().to_vec() }),
        CpInfo::Utf8(ConstantUtf8Info { tag: 0x01, length: 0x04, bytes: "Code".as_bytes().to_vec() }),
        CpInfo::Utf8(ConstantUtf8Info { tag: 0x01, length: 0x0f, bytes: "LineNumberTable".as_bytes().to_vec() }),
        CpInfo::Utf8(ConstantUtf8Info { tag: 0x01, length: 0x04, bytes: "prog".as_bytes().to_vec() }),
        CpInfo::Utf8(ConstantUtf8Info { tag: 0x01, length: 0x03, bytes: "()I".as_bytes().to_vec() }),
        CpInfo::Utf8(ConstantUtf8Info { tag: 0x01, length: 0x0a, bytes: "SourceFile".as_bytes().to_vec() }),
        CpInfo::Utf8(ConstantUtf8Info { tag: 0x01, length: 0x0c, bytes: "Sample1.java".as_bytes().to_vec() }),
    ]
}

#[test]
fn cp_accessor_test() {
    let constant_pool = sample_pool();

    let str = constant_pool.access_as_class(8).name().bytes_as_string();

    assert_eq!(str, Ok("Sample1".to_string()))
}

#[test]
fn index_zero_and_out_of_range_are_rejected() {
    let constant_pool = sample_pool();
    assert!(ClassCpAccessor::from(&constant_pool, 0).info_or_err.is_err());
    assert!(ClassCpAccessor::from(&constant_pool, 19).info_or_err.is_err());
    assert!(Utf8CpAccessor::from(&constant_pool, 0).bytes_as_string().is_err());
    assert!(Utf8CpAccessor::from(&constant_pool, 999).bytes_as_string().is_err());

    let pool = ConstantPool { constant_pool_count: 19, cp_infos: sample_pool() };
    assert!(pool.get_constant_pool_info(0).is_none());
    assert!(pool.get_constant_pool_info(19).is_none());
    assert!(pool.get_constant_pool_info(1).is_some());
    assert!(pool.get_constant_pool_info(18).is_some());
}

#[test]
fn wrong_variant_is_rejected() {
    let constant_pool = sample_pool();
    // slot 1 holds a Methodref, not a Class
    let e = ClassCpAccessor::from(&constant_pool, 1).info_or_err.unwrap_err();
    assert!(e.message.contains("CONSTANT_Methodref"));
}

#[test]
fn malformed_text_entry_is_rejected() {
    let constant_pool = vec![
        CpInfo::Utf8(ConstantUtf8Info { tag: 1, length: 2, bytes: vec![0xff, 0xfe] }),
        CpInfo::Utf8(ConstantUtf8Info { tag: 1, length: 3, bytes: "abc".as_bytes().to_vec() }),
    ];
    assert!(Utf8CpAccessor::from(&constant_pool, 1).bytes_as_string().is_err());
    assert_eq!(
        Utf8CpAccessor::from(&constant_pool, 2).bytes_as_string(),
        Ok("abc".to_string())
    );
    assert!(class_file::checker::check_constant_pool(&constant_pool, 61).is_err());
}

#[test]
fn numeric_entries_decode_big_endian() {
    let constant_pool = vec![
        CpInfo::Integer(ConstantIntegerInfo { tag: 3, bytes: [0xff, 0xff, 0xff, 0xfe] }),
        CpInfo::Integer(ConstantIntegerInfo { tag: 3, bytes: [0x00, 0x00, 0x01, 0x00] }),
        CpInfo::Long(ConstantLongInfo {
            tag: 5,
            high_bytes: [0x00, 0x00, 0x00, 0x01],
            low_bytes: [0x00, 0x00, 0x00, 0x00],
        }),
        CpInfo::Long(ConstantLongInfo {
            tag: 5,
            high_bytes: [0xff, 0xff, 0xff, 0xff],
            low_bytes: [0xff, 0xff, 0xff, 0xff],
        }),
    ];
    assert_eq!(IntegerCpAccessor::from(&constant_pool, 1).bytes_as_integer(), Ok(-2));
    assert_eq!(IntegerCpAccessor::from(&constant_pool, 2).bytes_as_integer(), Ok(256));
    assert_eq!(LongCpAccessor::from(&constant_pool, 3).bytes_as_long(), Ok(4294967296));
    assert_eq!(LongCpAccessor::from(&constant_pool, 4).bytes_as_long(), Ok(-1));
}
