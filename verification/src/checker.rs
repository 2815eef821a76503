//! The checker: a second pass over a fully decoded unit, enforcing version
//! bounds, tag-matching of every index use, descriptor well-formedness, and
//! the method-handle reference-kind rules. The pass reports the first
//! violation in ascending index and list order.

use vstd::prelude::*;
use vstd::string::{StrSliceExecFns, StringExecFns};
use vstd::utf8::valid_utf8;

use crate::attribute::{spec_attribute_name_index, Attribute};
use crate::constant_pool::{ConstantMethodHandleInfo, CpInfo};
use crate::cp_accessor::{
    cp_at, cp_has, AccessError, CpAccessor, ClassCpAccessor, DoubleCpAccessor, DynamicCpAccessor,
    FieldrefCpAccessor, FloatCpAccessor, IntegerCpAccessor, InterfaceMethodrefCpAccessor,
    InvokeDynamicCpAccessor, LongCpAccessor, MethodHandleCpAccessor, MethodHandleReference,
    MethodTypeCpAccessor, MethodrefCpAccessor, ModuleCpAccessor, NameAndTypeCpAccessor,
    PackageCpAccessor, StringCpAccessor, Utf8CpAccessor,
};
use crate::descriptor::{
    field_descriptor_ok, field_type_matches, lemma_field_type_last_char, method_descriptor_ok,
    method_returns_void, method_type_matches, params_match, parse_field_type,
    parse_method_descriptor, return_type_matches, ReturnType,
};
use crate::encoding::{cp_text_at, spec_magic};
use crate::error::Error;
use crate::root::{ClassFile, FieldsInfo, MethodInfo};

verus! {

/// A checker-phase failure, with the pass's common prefix on the message.
fn check_error<T>(message: &str) -> (r: Result<T, Error>)
    ensures
        r is Err,
{
    let mut m = "Class checking failed. ".to_owned();
    m.append(message);
    Err(Error { message: m })
}

/// An accessor failure surfaced by the checker.
fn access_error<T>(e: AccessError) -> (r: Result<T, Error>)
    ensures
        r is Err,
{
    let mut m = "Class checking failed. ".to_owned();
    m.append(e.message.as_str());
    Err(Error { message: m })
}

/// The version pairs this decoder accepts: majors 45 through 61, and from
/// major 56 on only the two release minor values.
pub open spec fn version_ok(minor_version: u16, major_version: u16) -> bool {
    &&& 45 <= major_version <= 61
    &&& major_version >= 56 ==> (minor_version == 0 || minor_version == 65535)
}

/// Slot `index` exists and holds a text entry.
pub open spec fn utf8_entry_at(pool: Seq<CpInfo>, index: u16) -> bool {
    cp_has(pool, index) && cp_at(pool, index) is Utf8
}

/// Slot `index` exists and holds a Class entry.
pub open spec fn class_entry_at(pool: Seq<CpInfo>, index: u16) -> bool {
    cp_has(pool, index) && cp_at(pool, index) is Class
}

/// Slot `index` exists and holds a NameAndType entry.
pub open spec fn nat_entry_at(pool: Seq<CpInfo>, index: u16) -> bool {
    cp_has(pool, index) && cp_at(pool, index) is NameAndType
}

/// The member name a NameAndType slot resolves to, when every hop resolves.
pub open spec fn nat_name_text(pool: Seq<CpInfo>, index: u16) -> Option<Seq<char>> {
    if nat_entry_at(pool, index) {
        cp_text_at(pool, cp_at(pool, index)->NameAndType_0.name_index)
    } else {
        None
    }
}

/// The descriptor text a NameAndType slot resolves to, when every hop resolves.
pub open spec fn nat_desc_text(pool: Seq<CpInfo>, index: u16) -> Option<Seq<char>> {
    if nat_entry_at(pool, index) {
        cp_text_at(pool, cp_at(pool, index)->NameAndType_0.descriptor_index)
    } else {
        None
    }
}

/// The kind-and-version-dependent table of entry shapes a method handle's
/// reference may designate: kinds 1-4 require Fieldref; 5 and 8 require
/// Methodref; 6 and 7 require Methodref below major 52 and allow
/// InterfaceMethodref from 52 on; 9 requires InterfaceMethodref.
pub open spec fn mh_target_ok(major_version: u16, kind: u8, entry: CpInfo) -> bool {
    if 1 <= kind <= 4 {
        entry is Fieldref
    } else if kind == 5 || kind == 8 {
        entry is Methodref
    } else if kind == 6 || kind == 7 {
        if major_version < 52 {
            entry is Methodref
        } else {
            entry is Methodref || entry is InterfaceMethodref
        }
    } else if kind == 9 {
        entry is InterfaceMethodref
    } else {
        false
    }
}

/// The method name a method handle's reference resolves to, when the
/// reference is one of the two method shapes and every hop resolves.
pub open spec fn mh_ref_name(pool: Seq<CpInfo>, entry: CpInfo) -> Option<Seq<char>> {
    match entry {
        CpInfo::Methodref(m) => nat_name_text(pool, m.name_and_type_index),
        CpInfo::InterfaceMethodref(m) => nat_name_text(pool, m.name_and_type_index),
        _ => None,
    }
}

/// Every rule on one MethodHandle entry: kind in 1..=9, the reference
/// matches the kind table, kinds 5, 6, 7 and 9 forbid the special method
/// names, and kind 8 requires the constructor name.
pub open spec fn method_handle_ok(
    pool: Seq<CpInfo>,
    major_version: u16,
    mh: ConstantMethodHandleInfo,
) -> bool {
    &&& 1 <= mh.reference_kind <= 9
    &&& cp_has(pool, mh.reference_index)
    &&& mh_target_ok(major_version, mh.reference_kind, cp_at(pool, mh.reference_index))
    &&& (mh.reference_kind == 5 || mh.reference_kind == 6 || mh.reference_kind == 7
        || mh.reference_kind == 9) ==> {
        let nm = mh_ref_name(pool, cp_at(pool, mh.reference_index));
        &&& nm is Some
        &&& nm->Some_0 != "<init>"@
        &&& nm->Some_0 != "<clinit>"@
    }
    &&& mh.reference_kind == 8 ==> {
        let nm = mh_ref_name(pool, cp_at(pool, mh.reference_index));
        &&& nm is Some
        &&& nm->Some_0 == "<init>"@
    }
}

/// Every rule on one pool entry, relative to the pool it sits in.
pub open spec fn cp_entry_ok(pool: Seq<CpInfo>, major_version: u16, entry: CpInfo) -> bool {
    match entry {
        CpInfo::Utf8(u) => valid_utf8(u.bytes@),
        CpInfo::Integer(_) => true,
        CpInfo::Float(_) => true,
        CpInfo::Long(_) => true,
        CpInfo::Double(_) => true,
        CpInfo::Class(c) => utf8_entry_at(pool, c.name_index),
        CpInfo::String(s) => utf8_entry_at(pool, s.string_index),
        CpInfo::Fieldref(f) => {
            &&& class_entry_at(pool, f.class_index)
            &&& nat_entry_at(pool, f.name_and_type_index)
            &&& nat_desc_text(pool, f.name_and_type_index) is Some
            &&& field_descriptor_ok(nat_desc_text(pool, f.name_and_type_index)->Some_0)
        },
        CpInfo::Methodref(m) => {
            &&& class_entry_at(pool, m.class_index)
            &&& nat_entry_at(pool, m.name_and_type_index)
            &&& nat_name_text(pool, m.name_and_type_index) is Some
            &&& nat_desc_text(pool, m.name_and_type_index) is Some
            &&& method_descriptor_ok(nat_desc_text(pool, m.name_and_type_index)->Some_0)
            &&& {
                let nm = nat_name_text(pool, m.name_and_type_index)->Some_0;
                (nm.len() > 0 && nm[0] == '<') ==> (nm == "<init>"@ && method_returns_void(
                    nat_desc_text(pool, m.name_and_type_index)->Some_0,
                ))
            }
        },
        CpInfo::InterfaceMethodref(m) => {
            &&& class_entry_at(pool, m.class_index)
            &&& nat_entry_at(pool, m.name_and_type_index)
            &&& nat_desc_text(pool, m.name_and_type_index) is Some
            &&& method_descriptor_ok(nat_desc_text(pool, m.name_and_type_index)->Some_0)
        },
        CpInfo::NameAndType(n) => {
            &&& utf8_entry_at(pool, n.name_index)
            &&& utf8_entry_at(pool, n.descriptor_index)
        },
        CpInfo::MethodHandle(mh) => method_handle_ok(pool, major_version, mh),
        CpInfo::MethodType(mt) => {
            &&& cp_text_at(pool, mt.descriptor_index) is Some
            &&& method_descriptor_ok(cp_text_at(pool, mt.descriptor_index)->Some_0)
        },
        CpInfo::Dynamic(d) => {
            &&& nat_entry_at(pool, d.name_and_type_index)
            &&& nat_name_text(pool, d.name_and_type_index) is Some
            &&& field_descriptor_ok(nat_name_text(pool, d.name_and_type_index)->Some_0)
            &&& nat_desc_text(pool, d.name_and_type_index) is Some
            &&& method_descriptor_ok(nat_desc_text(pool, d.name_and_type_index)->Some_0)
        },
        CpInfo::InvokeDynamic(d) => {
            &&& nat_entry_at(pool, d.name_and_type_index)
            &&& nat_name_text(pool, d.name_and_type_index) is Some
            &&& field_descriptor_ok(nat_name_text(pool, d.name_and_type_index)->Some_0)
            &&& nat_desc_text(pool, d.name_and_type_index) is Some
            &&& method_descriptor_ok(nat_desc_text(pool, d.name_and_type_index)->Some_0)
        },
        CpInfo::Module(m) => cp_text_at(pool, m.name_index) is Some,
        CpInfo::Package(p) => cp_text_at(pool, p.name_index) is Some,
    }
}

/// Every entry of the pool passes its rules. A pool longer than the 65534
/// slots a unit file can address is never acceptable.
pub open spec fn cp_ok(pool: Seq<CpInfo>, major_version: u16) -> bool {
    &&& pool.len() <= 65534
    &&& forall|i: int| 0 <= i < pool.len() ==> cp_entry_ok(pool, major_version, #[trigger] pool[i])
}

/// Every field's name index resolves through a text entry.
pub open spec fn fields_ok(pool: Seq<CpInfo>, fields: Seq<FieldsInfo>) -> bool {
    forall|i: int| 0 <= i < fields.len() ==> utf8_entry_at(pool, (#[trigger] fields[i]).name_index)
}

/// Every attribute's name index resolves through a text entry.
pub open spec fn attributes_ok(pool: Seq<CpInfo>, attributes: Seq<Attribute>) -> bool {
    forall|i: int|
        0 <= i < attributes.len() ==> utf8_entry_at(
            pool,
            spec_attribute_name_index(#[trigger] attributes[i]),
        )
}

/// Every method's name index, and every name index of its attributes,
/// resolves through a text entry.
pub open spec fn methods_ok(pool: Seq<CpInfo>, methods: Seq<MethodInfo>) -> bool {
    forall|i: int|
        0 <= i < methods.len() ==> utf8_entry_at(pool, (#[trigger] methods[i]).name_index)
            && attributes_ok(pool, methods[i].attributes@)
}

/// Everything the checking pass enforces on a decoded unit.
pub open spec fn class_file_checked(cf: ClassFile) -> bool {
    &&& version_ok(cf.minor_version, cf.major_version)
    &&& cp_ok(cf.constant_pool@, cf.major_version)
    &&& attributes_ok(cf.constant_pool@, cf.attributes@)
    &&& fields_ok(cf.constant_pool@, cf.fields@)
    &&& methods_ok(cf.constant_pool@, cf.methods@)
}

/// Accepts exactly the magic marker every unit file begins with.
pub fn check_magic(magic: &[u8; 4]) -> (r: Result<(), Error>)
    ensures
        r is Ok <==> magic@ == spec_magic(),
{
    if magic[0] == 0xca && magic[1] == 0xfe && magic[2] == 0xba && magic[3] == 0xbe {
        proof {
            assert(magic@ =~= spec_magic());
        }
        Ok(())
    } else {
        proof {
            assert(magic@ != spec_magic());
        }
        check_error("This is not a class file. The first byte array must be `cafebabe`")
    }
}

/// Accepts exactly the version pairs of `version_ok`.
pub fn check_version(minor_version: u16, major_version: u16) -> (r: Result<(), Error>)
    ensures
        r is Ok <==> version_ok(minor_version, major_version),
{
    if major_version >= 56 && major_version <= 61 {
        if minor_version == 0 || minor_version == 65535 {
            Ok(())
        } else {
            check_error("invalid class file minor version.")
        }
    } else if major_version >= 45 && major_version <= 61 {
        Ok(())
    } else {
        check_error(
            "Not supported class file version. This JVM is version 17. Class file major versions 45 upto 61 are supported.",
        )
    }
}

/// Walks the pool entry by entry and accepts exactly when every entry
/// passes its rules; the first violation, in ascending slot order, is
/// reported.
pub fn check_constant_pool(constant_pool: &Vec<CpInfo>, major_version: u16) -> (r: Result<
    (),
    Error,
>)
    ensures
        r is Ok <==> cp_ok(constant_pool@, major_version),
{
    if constant_pool.len() > 65534 {
        return check_error("too many constant pool entries.");
    }
    let ghost pool = constant_pool@;
    let mut i: usize = 0;
    while i < constant_pool.len()
        invariant
            constant_pool@ == pool,
            pool.len() <= 65534,
            i <= pool.len(),
            forall|k: int| 0 <= k < i ==> cp_entry_ok(pool, major_version, #[trigger] pool[k]),
        decreases constant_pool@.len() - i,
    {
        let cp_index: u16 = (i + 1) as u16;
        proof {
            assert(cp_has(pool, cp_index) && cp_at(pool, cp_index) == pool[i as int]);
        }
        match check_cp_entry(constant_pool, major_version, cp_index) {
            Ok(_) => {},
            Err(e) => {
                return Err(e);
            },
        }
        i = i + 1;
    }
    Ok(())
}

/// Checks the single entry at logical slot `cp_index` against its rules.
fn check_cp_entry(constant_pool: &Vec<CpInfo>, major_version: u16, cp_index: u16) -> (r: Result<
    (),
    Error,
>)
    requires
        cp_has(constant_pool@, cp_index),
    ensures
        r is Ok <==> cp_entry_ok(
            constant_pool@,
            major_version,
            cp_at(constant_pool@, cp_index),
        ),
{
    let ghost pool = constant_pool@;
    let entry = &constant_pool[(cp_index - 1) as usize];
    proof {
        assert(*entry == cp_at(pool, cp_index));
    }
    match entry {
        CpInfo::Utf8(_) => {
            match constant_pool.access_as_utf8(cp_index).bytes_as_string() {
                Ok(_) => Ok(()),
                Err(e) => access_error(e),
            }
        },
        CpInfo::Integer(_) => {
            match constant_pool.access_as_integer(cp_index).bytes_as_integer() {
                Ok(_) => Ok(()),
                Err(e) => access_error(e),
            }
        },
        CpInfo::Float(_) => {
            match constant_pool.access_as_float(cp_index).info_or_err {
                Ok(_) => Ok(()),
                Err(e) => access_error(e),
            }
        },
        CpInfo::Long(_) => {
            match LongCpAccessor::from(constant_pool, cp_index).bytes_as_long() {
                Ok(_) => Ok(()),
                Err(e) => access_error(e),
            }
        },
        CpInfo::Double(_) => {
            match constant_pool.access_as_double(cp_index).info_or_err {
                Ok(_) => Ok(()),
                Err(e) => access_error(e),
            }
        },
        CpInfo::Class(_) => {
            match constant_pool.access_as_class(cp_index).name().info_or_err {
                Ok(_) => Ok(()),
                Err(e) => access_error(e),
            }
        },
        CpInfo::String(_) => {
            match StringCpAccessor::from(constant_pool, cp_index).name().info_or_err {
                Ok(_) => Ok(()),
                Err(e) => access_error(e),
            }
        },
        CpInfo::Fieldref(_) => {
            let acc = constant_pool.access_as_fieldref(cp_index);
            match acc.class().info_or_err {
                Ok(_) => {},
                Err(e) => {
                    return access_error(e);
                },
            }
            let descriptor = match acc.name_and_type().descriptor().bytes_as_string() {
                Ok(s) => s,
                Err(e) => {
                    return access_error(e);
                },
            };
            match parse_field_type(descriptor.as_str()) {
                Ok(_) => Ok(()),
                Err(e) => Err(e),
            }
        },
        CpInfo::Methodref(_) => {
            check_methodref(constant_pool, major_version, cp_index)
        },
        CpInfo::InterfaceMethodref(_) => {
            let acc = constant_pool.access_as_interface_methodref(cp_index);
            match acc.class().info_or_err {
                Ok(_) => {},
                Err(e) => {
                    return access_error(e);
                },
            }
            let descriptor = match acc.name_and_type().descriptor().bytes_as_string() {
                Ok(s) => s,
                Err(e) => {
                    return access_error(e);
                },
            };
            match parse_method_descriptor(descriptor.as_str()) {
                Ok(_) => Ok(()),
                Err(e) => Err(e),
            }
        },
        CpInfo::NameAndType(_) => {
            let acc = constant_pool.access_as_name_and_type(cp_index);
            match acc.name().info_or_err {
                Ok(_) => {},
                Err(e) => {
                    return access_error(e);
                },
            }
            match acc.descriptor().info_or_err {
                Ok(_) => Ok(()),
                Err(e) => access_error(e),
            }
        },
        CpInfo::MethodHandle(_) => {
            check_method_handle(constant_pool, major_version, cp_index)
        },
        CpInfo::MethodType(_) => {
            let acc = constant_pool.access_as_method_type(cp_index);
            let descriptor = match acc.descriptor().bytes_as_string() {
                Ok(s) => s,
                Err(e) => {
                    return access_error(e);
                },
            };
            match parse_method_descriptor(descriptor.as_str()) {
                Ok(_) => Ok(()),
                Err(e) => Err(e),
            }
        },
        CpInfo::Dynamic(_) => {
            let acc = constant_pool.access_as_dynamic(cp_index);
            let _bootstrap_method_attr_index = match acc.get_bootstrap_method_attr_index() {
                Ok(v) => v,
                Err(e) => {
                    return access_error(e);
                },
            };
            let name = match acc.name_and_type().name().bytes_as_string() {
                Ok(s) => s,
                Err(e) => {
                    return access_error(e);
                },
            };
            match parse_field_type(name.as_str()) {
                Ok(_) => {},
                Err(e) => {
                    return Err(e);
                },
            }
            let descriptor = match acc.name_and_type().descriptor().bytes_as_string() {
                Ok(s) => s,
                Err(e) => {
                    return access_error(e);
                },
            };
            match parse_method_descriptor(descriptor.as_str()) {
                Ok(_) => Ok(()),
                Err(e) => Err(e),
            }
        },
        CpInfo::InvokeDynamic(_) => {
            let acc = constant_pool.access_as_invoke_dynamic(cp_index);
            let _bootstrap_method_attr_index = match acc.get_bootstrap_method_attr_index() {
                Ok(v) => v,
                Err(e) => {
                    return access_error(e);
                },
            };
            let name = match acc.name_and_type().name().bytes_as_string() {
                Ok(s) => s,
                Err(e) => {
                    return access_error(e);
                },
            };
            match parse_field_type(name.as_str()) {
                Ok(_) => {},
                Err(e) => {
                    return Err(e);
                },
            }
            let descriptor = match acc.name_and_type().descriptor().bytes_as_string() {
                Ok(s) => s,
                Err(e) => {
                    return access_error(e);
                },
            };
            match parse_method_descriptor(descriptor.as_str()) {
                Ok(_) => Ok(()),
                Err(e) => Err(e),
            }
        },
        CpInfo::Module(_) => {
            match constant_pool.access_as_module(cp_index).name().bytes_as_string() {
                Ok(_) => Ok(()),
                Err(e) => access_error(e),
            }
        },
        CpInfo::Package(_) => {
            match constant_pool.access_as_package(cp_index).name().bytes_as_string() {
                Ok(_) => Ok(()),
                Err(e) => access_error(e),
            }
        },
    }
}

/// Checks one Methodref entry: its class and name-and-type resolve, its
/// descriptor parses, and a name beginning with `<` must be the constructor
/// name with a void return type.
fn check_methodref(constant_pool: &Vec<CpInfo>, major_version: u16, cp_index: u16) -> (r: Result<
    (),
    Error,
>)
    requires
        cp_has(constant_pool@, cp_index),
        cp_at(constant_pool@, cp_index) is Methodref,
    ensures
        r is Ok <==> cp_entry_ok(
            constant_pool@,
            major_version,
            cp_at(constant_pool@, cp_index),
        ),
{
    let ghost pool = constant_pool@;
    let acc = constant_pool.access_as_methodref(cp_index);
    match acc.class().info_or_err {
        Ok(_) => {},
        Err(e) => {
            return access_error(e);
        },
    }
    let name = match acc.name_and_type().name().bytes_as_string() {
        Ok(s) => s,
        Err(e) => {
            return access_error(e);
        },
    };
    let descriptor = match acc.name_and_type().descriptor().bytes_as_string() {
        Ok(s) => s,
        Err(e) => {
            return access_error(e);
        },
    };
    let method_type = match parse_method_descriptor(descriptor.as_str()) {
        Ok(mt) => mt,
        Err(e) => {
            return Err(e);
        },
    };
    let ghost m = cp_at(pool, cp_index)->Methodref_0;
    proof {
        assert(name@ == nat_name_text(pool, m.name_and_type_index)->Some_0);
        assert(descriptor@ == nat_desc_text(pool, m.name_and_type_index)->Some_0);
        // The parsed return type decides voidness: a void return ends the
        // descriptor in the marker letter, a field type never does.
        let t = descriptor@;
        let p = choose|p: int|
            #![trigger params_match(t, 1, method_type.parameter_types@, p)]
            {
                &&& params_match(t, 1, method_type.parameter_types@, p)
                &&& 0 <= p < t.len()
                &&& t[p] == ')'
                &&& return_type_matches(t, p + 1, method_type.return_type, t.len() as int)
            };
        match &method_type.return_type {
            ReturnType::Void => {
                assert(method_returns_void(t));
            },
            ReturnType::Field { value } => {
                lemma_field_type_last_char(t, p + 1, *value, t.len() as int);
                assert(!method_returns_void(t));
            },
        }
    }
    if name.as_str().unicode_len() > 0 && name.as_str().get_char(0) == '<' {
        let special = "<init>".to_owned();
        if !string_eq(&name, &special) {
            proof {
                reveal_strlit("<init>");
            }
            return check_error("A special method name <init> is expected, but not.");
        }
        match method_type.return_type {
            ReturnType::Void => Ok(()),
            _ => check_error("return type of <init> must be void."),
        }
    } else {
        Ok(())
    }
}

/// Whether two strings hold the same text.
fn string_eq(a: &String, b: &String) -> (r: bool)
    ensures
        r == (a@ == b@),
{
    a.eq(b)
}

/// Checks one MethodHandle entry against the kind table and the special
/// method-name rules.
fn check_method_handle(constant_pool: &Vec<CpInfo>, major_version: u16, cp_index: u16) -> (r:
    Result<(), Error>)
    requires
        cp_has(constant_pool@, cp_index),
        cp_at(constant_pool@, cp_index) is MethodHandle,
    ensures
        r is Ok <==> cp_entry_ok(
            constant_pool@,
            major_version,
            cp_at(constant_pool@, cp_index),
        ),
{
    let ghost pool = constant_pool@;
    let ghost mh = cp_at(pool, cp_index)->MethodHandle_0;
    let acc = constant_pool.access_as_method_handle(cp_index);
    let reference_kind = match acc.reference_kind() {
        Ok(k) => k,
        Err(e) => {
            return access_error(e);
        },
    };
    if !(1 <= reference_kind && reference_kind <= 9) {
        return check_error(
            "The reference_kind of CONSTANT_MethodHandle_info must be in the range 1 to 9.",
        );
    }
    let reference = match acc.reference() {
        Ok(r) => r,
        Err(e) => {
            return access_error(e);
        },
    };
    let ghost target = cp_at(pool, mh.reference_index);
    if 1 <= reference_kind && reference_kind <= 4 {
        match &reference {
            MethodHandleReference::Fieldref(_) => {},
            _ => {
                return check_error(
                    "When reference_kind is in the range 1 to 4, the constant_pool entry at the reference_index must be CONSTANT_Fieldref_info.",
                );
            },
        }
    } else if reference_kind == 5 || reference_kind == 8 {
        match &reference {
            MethodHandleReference::Methodref(_) => {},
            _ => {
                return check_error(
                    "When reference_kind is 5 or 8, the constant_pool entry at the reference_index must be CONSTANT_Methodref_info.",
                );
            },
        }
    } else if (reference_kind == 6 || reference_kind == 7) && major_version < 52 {
        match &reference {
            MethodHandleReference::Methodref(_) => {},
            _ => {
                return check_error(
                    "When reference_kind is 6 or 7 and version is less than 52.0, the constant_pool entry at the reference_index must be CONSTANT_Methodref_info.",
                );
            },
        }
    } else if reference_kind == 6 || reference_kind == 7 {
        match &reference {
            MethodHandleReference::Fieldref(_) => {
                return check_error(
                    "When reference_kind is 6 or 7 and version is 52.0 or above, the constant_pool entry at the reference_index must be CONSTANT_Methodref_info or CONSTANT_InterfaceMethodref_info.",
                );
            },
            _ => {},
        }
    } else {
        match &reference {
            MethodHandleReference::InterfaceMethodref(_) => {},
            _ => {
                return check_error(
                    "When reference_kind is 9, the constant_pool entry at the reference_index must be CONSTANT_InterfaceMethodref_info.",
                );
            },
        }
    }
    if reference_kind == 5 || reference_kind == 6 || reference_kind == 7 || reference_kind == 9 {
        let method_name = match &reference {
            MethodHandleReference::Fieldref(_) => {
                return check_error(
                    "When reference_kind is 5, 6, 7 or 9, the constant_pool entry at the reference_index must be a method reference.",
                );
            },
            MethodHandleReference::Methodref(a) => match a.name_and_type().name().bytes_as_string()
                {
                Ok(s) => s,
                Err(e) => {
                    return access_error(e);
                },
            },
            MethodHandleReference::InterfaceMethodref(a) => match a.name_and_type()
                .name()
                .bytes_as_string() {
                Ok(s) => s,
                Err(e) => {
                    return access_error(e);
                },
            },
        };
        let init = "<init>".to_owned();
        let clinit = "<clinit>".to_owned();
        if string_eq(&method_name, &init) || string_eq(&method_name, &clinit) {
            return check_error(
                "When reference_kind is 5, 6, 7 or 9, the name of the method must not be <init> or <clinit>.",
            );
        }
        Ok(())
    } else if reference_kind == 8 {
        let method_name = match &reference {
            MethodHandleReference::Methodref(a) => match a.name_and_type().name().bytes_as_string()
                {
                Ok(s) => s,
                Err(e) => {
                    return access_error(e);
                },
            },
            _ => {
                return check_error(
                    "When reference_kind is 8, the constant_pool entry at the reference_index must be CONSTANT_Methodref_info.",
                );
            },
        };
        let init = "<init>".to_owned();
        if !string_eq(&method_name, &init) {
            return check_error(
                "When reference_kind is 8, the name of the method must be <init>.",
            );
        }
        Ok(())
    } else {
        Ok(())
    }
}

/// Translates the 1-based logical index into the pool.
fn get_constant_pool_info<'a>(constant_pool: &'a Vec<CpInfo>, index: usize) -> (r: Option<
    &'a CpInfo,
>)
    ensures
        match r {
            Some(info) => {
                &&& 1 <= index <= constant_pool@.len()
                &&& *info == constant_pool@[index - 1]
            },
            None => index == 0 || index > constant_pool@.len(),
        },
{
    if index == 0 || index > constant_pool.len() {
        None
    } else {
        Some(&constant_pool[index - 1])
    }
}

/// Accepts exactly when `index` resolves through a text entry.
fn is_constant_utf8_info_entry(index: u16, constant_pool: &Vec<CpInfo>) -> (r: Result<(), Error>)
    ensures
        r is Ok <==> utf8_entry_at(constant_pool@, index),
{
    match get_constant_pool_info(constant_pool, index as usize) {
        Some(CpInfo::Utf8(_)) => Ok(()),
        Some(_) => check_error("This index must refer to CONSTANT_Utf8_info structure."),
        None => check_error("missing constant_pool entry."),
    }
}

/// Accepts exactly when every field's name index resolves through a text entry.
fn check_fields(fields: &Vec<FieldsInfo>, constant_pool: &Vec<CpInfo>) -> (r: Result<(), Error>)
    ensures
        r is Ok <==> fields_ok(constant_pool@, fields@),
{
    let mut i: usize = 0;
    while i < fields.len()
        invariant
            i <= fields@.len(),
            forall|k: int|
                0 <= k < i ==> utf8_entry_at(constant_pool@, (#[trigger] fields@[k]).name_index),
        decreases fields@.len() - i,
    {
        match is_constant_utf8_info_entry(fields[i].name_index, constant_pool) {
            Ok(_) => {},
            Err(e) => {
                return Err(e);
            },
        }
        i = i + 1;
    }
    Ok(())
}

/// Accepts exactly when every attribute's name index resolves through a
/// text entry.
fn check_attributes(attributes: &Vec<Attribute>, constant_pool: &Vec<CpInfo>) -> (r: Result<
    (),
    Error,
>)
    ensures
        r is Ok <==> attributes_ok(constant_pool@, attributes@),
{
    let mut i: usize = 0;
    while i < attributes.len()
        invariant
            i <= attributes@.len(),
            forall|k: int|
                0 <= k < i ==> utf8_entry_at(
                    constant_pool@,
                    spec_attribute_name_index(#[trigger] attributes@[k]),
                ),
        decreases attributes@.len() - i,
    {
        match is_constant_utf8_info_entry(attributes[i].attribute_name_index(), constant_pool) {
            Ok(_) => {},
            Err(e) => {
                return Err(e);
            },
        }
        i = i + 1;
    }
    Ok(())
}

/// Accepts exactly when every method's name index, and every name index of
/// its attributes, resolves through a text entry.
fn check_methods(methods: &Vec<MethodInfo>, constant_pool: &Vec<CpInfo>) -> (r: Result<(), Error>)
    ensures
        r is Ok <==> methods_ok(constant_pool@, methods@),
{
    let mut i: usize = 0;
    while i < methods.len()
        invariant
            i <= methods@.len(),
            forall|k: int|
                0 <= k < i ==> utf8_entry_at(constant_pool@, (#[trigger] methods@[k]).name_index)
                    && attributes_ok(constant_pool@, methods@[k].attributes@),
        decreases methods@.len() - i,
    {
        match is_constant_utf8_info_entry(methods[i].name_index, constant_pool) {
            Ok(_) => {},
            Err(e) => {
                return Err(e);
            },
        }
        match check_attributes(&methods[i].attributes, constant_pool) {
            Ok(_) => {},
            Err(e) => {
                return Err(e);
            },
        }
        i = i + 1;
    }
    Ok(())
}

/// The full checking pass over a decoded unit: version rule, pool rules,
/// then the name indices of the unit's attributes, fields and methods, in
/// that order; the first violation found is returned.
pub fn check_class_file(class_file: &ClassFile) -> (r: Result<(), Error>)
    ensures
        r is Ok <==> class_file_checked(*class_file),
{
    match check_version(class_file.minor_version, class_file.major_version) {
        Ok(_) => {},
        Err(e) => {
            return Err(e);
        },
    }
    match check_constant_pool(&class_file.constant_pool, class_file.major_version) {
        Ok(_) => {},
        Err(e) => {
            return Err(e);
        },
    }
    match check_attributes(&class_file.attributes, &class_file.constant_pool) {
        Ok(_) => {},
        Err(e) => {
            return Err(e);
        },
    }
    match check_fields(&class_file.fields, &class_file.constant_pool) {
        Ok(_) => {},
        Err(e) => {
            return Err(e);
        },
    }
    match check_methods(&class_file.methods, &class_file.constant_pool) {
        Ok(_) => {},
        Err(e) => {
            return Err(e);
        },
    }
    Ok(())
}


/// Index safety: slot 0 and any index past the pool never resolve — not as
/// a plain slot, a text entry, a Class entry, a NameAndType entry, or a
/// chained text lookup — so every such use is rejected, at whichever site
/// the checker inspects it.
pub proof fn lemma_index_safety(pool: Seq<CpInfo>, index: u16)
    requires
        index == 0 || index > pool.len(),
    ensures
        !cp_has(pool, index),
        !utf8_entry_at(pool, index),
        !class_entry_at(pool, index),
        !nat_entry_at(pool, index),
        cp_text_at(pool, index) is None,
        nat_name_text(pool, index) is None,
        nat_desc_text(pool, index) is None,
{
}

} // verus!
