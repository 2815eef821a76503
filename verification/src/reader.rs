//! The binary reader: bounds-checked primitive reads over a byte buffer and
//! a cursor, and the structural decoders built from them.

use vstd::prelude::*;
use vstd::string::StringExecFns;

use crate::constant_pool::{
    ConstantClassInfo, ConstantDoubleInfo, ConstantDynamicInfo, ConstantFieldrefInfo,
    ConstantFloatInfo, ConstantIntegerInfo, ConstantInterfaceMethodrefInfo,
    ConstantInvokeDynamicInfo, ConstantLongInfo, ConstantMethodHandleInfo, ConstantMethodTypeInfo,
    ConstantMethodrefInfo, ConstantModuleInfo, ConstantNameAndTypeInfo, ConstantPackageInfo,
    ConstantPool, ConstantStringInfo, ConstantUtf8Info, CpInfo, CONSTANT_CLASS, CONSTANT_DOUBLE,
    CONSTANT_DYNAMIC, CONSTANT_FIELDREF, CONSTANT_FLOAT, CONSTANT_INTEGER,
    CONSTANT_INTERFACE_METHODREF, CONSTANT_INVOKE_DYNAMIC, CONSTANT_LONG, CONSTANT_METHODREF,
    CONSTANT_METHOD_HANDLE, CONSTANT_METHOD_TYPE, CONSTANT_MODULE, CONSTANT_NAME_AND_TYPE,
    CONSTANT_PACKAGE, CONSTANT_STRING, CONSTANT_UTF8,
};
use crate::attribute::{
    spec_attribute_length, spec_attribute_name_index, Attribute, AttributeInfo, BootstrapMethod, BootstrapMethodsAttribute, CodeAttributeInfo,
    ConstantValueAttribute, ExceptionTable, Export, MethodParametersAttribute, ModuleAttribute,
    NestHostAttribute, NestMembersAttribute, Open, Parameter, PermittedSubclassesAttribute,
    Provide, Require, StackMapFrame, StackMapTableAttribute, VerificationTypeInfo,
};
use crate::encoding::{
    be16, be16_at, be32, cp_text_at, starts_with, lemma_be16_inj, lemma_be32_inj,
    lemma_starts_with_cat, lemma_starts_with_split,
    lemma_peel, lemma_class_file_header, enc_after_pool, enc_after_access,
    enc_after_this, enc_after_super, enc_after_interface_count, enc_after_interfaces,
    enc_after_field_count, enc_after_fields, enc_after_method_count, enc_after_methods,
    lemma_enc_u16_list_len, lemma_enc_exception_list_len,
    lemma_enc_parameter_list_len, lemma_enc_require_list_len, enc_attribute, enc_attribute_list, enc_bootstrap_list,
    enc_bootstrap_method, enc_class_file, enc_cp_info, enc_cp_list, enc_exception_list,
    enc_exception_table, enc_export, enc_export_list, enc_field, enc_field_list, enc_frame_list,
    enc_method, enc_method_list, enc_open, enc_open_list, enc_parameter, enc_parameter_list,
    enc_provide, enc_provide_list, enc_require, enc_require_list, enc_stack_map_frame,
    enc_u16_list, enc_verification_list, enc_verification_type, known_attribute_name, lemma_be16,
    lemma_be16_at,
    lemma_be32, lemma_enc_attribute_list_push, lemma_enc_bootstrap_list_push,
    lemma_enc_cp_list_push, lemma_enc_exception_list_push, lemma_enc_export_list_push,
    lemma_enc_field_list_push, lemma_enc_frame_list_push, lemma_enc_method_list_push,
    lemma_enc_open_list_push, lemma_enc_parameter_list_push, lemma_enc_provide_list_push,
    lemma_enc_require_list_push, lemma_enc_u16_list_push, lemma_enc_verification_list_push,
    lemma_subrange_cat, lemma_wf_attribute_list_push, spec_magic, wf_attribute, wf_attribute_list,
    wf_bootstrap_list_all, wf_bootstrap_method, wf_class_file, wf_cp_info, wf_cp_list, wf_export,
    wf_export_list_all, wf_field, wf_frame_list, wf_method, wf_open, wf_open_list_all, wf_provide,
    wf_provide_list_all, wf_stack_map_frame, wf_verification_list, wf_verification_type,
};
use crate::cp_accessor::Utf8CpAccessor;
use crate::determinism::{
    lemma_attribute_det, lemma_attribute_list_det, lemma_be16_det, lemma_be32_det,
    lemma_bootstrap_det, lemma_cp_info_det, lemma_cp_list_det, lemma_cp_ok_view_eq,
    lemma_export_det, lemma_export_list_det, lemma_field_det, lemma_field_list_det,
    lemma_checked_names_transfer, lemma_class_file_det, lemma_frame_det, lemma_method_det,
    lemma_open_list_det, same_text_entries,
    lemma_method_list_det, lemma_open_det, lemma_provide_det, lemma_vt_det, lemma_vt_list_det,
    lemma_wf_attribute_list_same_pool,
};
use crate::error::Error;
use crate::root::{ClassFile, FieldsInfo, MethodInfo};
use crate::text::usize_to_string;

verus! {

/// A read-phase failure: the message, with the cursor position appended.
fn reader_error<T>(message: &str, offset: usize) -> (r: Result<T, Error>)
    ensures
        r is Err,
{
    let mut m = message.to_owned();
    m.append(", offset: ");
    m.append(usize_to_string(offset).as_str());
    Err(Error { message: m })
}

/// Reads one byte, advancing the cursor past it.
pub fn read_u8(bytes: &[u8], offset: &mut usize) -> (r: Result<u8, Error>)
    ensures
        r is Ok <==> *old(offset) + 1 <= bytes@.len(),
        r is Err ==> *final(offset) == *old(offset),
        r is Ok ==> {
            &&& *final(offset) == *old(offset) + 1
            &&& seq![r->Ok_0] =~= bytes@.subrange(*old(offset) as int, *final(offset) as int)
        },
{
    if *offset < bytes.len() {
        let b = bytes[*offset];
        *offset = *offset + 1;
        Ok(b)
    } else {
        reader_error("Input is shorter than required and cannot be read.", *offset)
    }
}

/// Reads a 16-bit big-endian integer, advancing the cursor past it.
pub fn read_u16(bytes: &[u8], offset: &mut usize) -> (r: Result<u16, Error>)
    ensures
        r is Ok <==> *old(offset) + 2 <= bytes@.len(),
        r is Err ==> *final(offset) == *old(offset),
        r is Ok ==> {
            &&& *final(offset) == *old(offset) + 2
            &&& be16(r->Ok_0) =~= bytes@.subrange(*old(offset) as int, *final(offset) as int)
        },
{
    if bytes.len() >= 2 && *offset <= bytes.len() - 2 {
        let b0 = bytes[*offset];
        let b1 = bytes[*offset + 1];
        let v: u16 = (b0 as u16) * 256 + (b1 as u16);
        proof {
            lemma_be16(v, b0, b1);
        }
        *offset = *offset + 2;
        Ok(v)
    } else {
        reader_error("Input is shorter than required and cannot be read.", *offset)
    }
}

/// Reads a 32-bit big-endian integer, advancing the cursor past it.
pub fn read_u32(bytes: &[u8], offset: &mut usize) -> (r: Result<u32, Error>)
    ensures
        r is Ok <==> *old(offset) + 4 <= bytes@.len(),
        r is Err ==> *final(offset) == *old(offset),
        r is Ok ==> {
            &&& *final(offset) == *old(offset) + 4
            &&& be32(r->Ok_0) =~= bytes@.subrange(*old(offset) as int, *final(offset) as int)
        },
{
    let ghost start = *offset;
    if bytes.len() >= 4 && *offset <= bytes.len() - 4 {
        let hi = match read_u16(bytes, offset) {
            Ok(v) => v,
            Err(e) => { return Err(e); },
        };
        let lo = match read_u16(bytes, offset) {
            Ok(v) => v,
            Err(e) => { return Err(e); },
        };
        let v: u32 = (hi as u32) * 65536 + (lo as u32);
        proof {
            lemma_be32(v, hi, lo);
            assert(be16(hi) + be16(lo) =~= bytes@.subrange(start as int, start + 4));
        }
        Ok(v)
    } else {
        reader_error("Input is shorter than required and cannot be read.", *offset)
    }
}

/// Reads four raw bytes, advancing the cursor past them.
pub fn read_n4(bytes: &[u8], offset: &mut usize) -> (r: Result<[u8; 4], Error>)
    ensures
        r is Ok <==> *old(offset) + 4 <= bytes@.len(),
        r is Err ==> *final(offset) == *old(offset),
        r is Ok ==> {
            &&& *final(offset) == *old(offset) + 4
            &&& r->Ok_0@ =~= bytes@.subrange(*old(offset) as int, *final(offset) as int)
        },
{
    if bytes.len() >= 4 && *offset <= bytes.len() - 4 {
        let a: [u8; 4] = [bytes[*offset], bytes[*offset + 1], bytes[*offset + 2], bytes[*offset
            + 3]];
        *offset = *offset + 4;
        Ok(a)
    } else {
        reader_error("Input is shorter than required and cannot be read.", *offset)
    }
}

/// Reads `length` raw bytes, advancing the cursor past them.
pub fn read_u8_vec(bytes: &[u8], offset: &mut usize, length: usize) -> (r: Result<Vec<u8>, Error>)
    ensures
        r is Ok <==> *old(offset) + length <= bytes@.len(),
        r is Err ==> *final(offset) == *old(offset),
        r is Ok ==> {
            &&& *final(offset) == *old(offset) + length
            &&& r->Ok_0@ =~= bytes@.subrange(*old(offset) as int, *final(offset) as int)
        },
{
    if length <= bytes.len() && *offset <= bytes.len() - length {
        let ghost start = *offset;
        let mut v: Vec<u8> = Vec::new();
        let mut i: usize = 0;
        while i < length
            invariant
                *offset == start + i,
                i <= length,
                start + length <= bytes@.len(),
                v@ =~= bytes@.subrange(start as int, start + i),
            decreases length - i,
        {
            v.push(bytes[*offset]);
            *offset = *offset + 1;
            i = i + 1;
        }
        Ok(v)
    } else {
        reader_error("Input is shorter than required and cannot be read.", *offset)
    }
}


impl ConstantUtf8Info {
    /// Reads the payload of a text entry: a 16-bit length, then that many
    /// raw bytes.
    pub fn read(bytes: &[u8], offset: &mut usize) -> (r: Result<ConstantUtf8Info, Error>)
        ensures
            *old(offset) <= *final(offset),
            r is Ok <==> *old(offset) + 2 <= bytes@.len() && *old(offset) + 2 + be16_at(
                bytes@,
                *old(offset) as int,
            ) <= bytes@.len(),
            r is Ok ==> {
                &&& *final(offset) <= bytes@.len()
                &&& r->Ok_0.tag == CONSTANT_UTF8
                &&& r->Ok_0.length == r->Ok_0.bytes@.len()
                &&& be16(r->Ok_0.length) + r->Ok_0.bytes@ == bytes@.subrange(
                    *old(offset) as int,
                    *final(offset) as int,
                )
            },
    {
        let ghost o0 = *offset;
        let length = match read_u16(bytes, offset) {
            Ok(v) => v,
            Err(e) => {
                return Err(e);
            },
        };
        let ghost o1 = *offset;
        proof {
            lemma_be16_at(bytes@, o0 as int, length);
        }
        let text = match read_u8_vec(bytes, offset, length as usize) {
            Ok(v) => v,
            Err(e) => {
                return Err(e);
            },
        };
        proof {
            assert(be16(length) + text@ =~= bytes@.subrange(o0 as int, *offset as int));
        }
        Ok(ConstantUtf8Info { tag: CONSTANT_UTF8, length, bytes: text })
    }
}

impl ConstantIntegerInfo {
    /// Reads the fixed payload of this entry shape.
    pub fn read(bytes: &[u8], offset: &mut usize) -> (r: Result<ConstantIntegerInfo, Error>)
        ensures
            *old(offset) <= *final(offset),
            r is Ok <==> *old(offset) + 4 <= bytes@.len(),
            r is Ok ==> {
                &&& *final(offset) <= bytes@.len()
                &&& r->Ok_0.tag == CONSTANT_INTEGER
                &&& r->Ok_0.bytes@ == bytes@.subrange(*old(offset) as int, *final(offset) as int)
            },
    {
        let ghost o0 = *offset;
        let v_bytes = match read_n4(bytes, offset) {
            Ok(v) => v,
            Err(e) => {
                return Err(e);
            },
        };
        let r = ConstantIntegerInfo { tag: CONSTANT_INTEGER, bytes: v_bytes };
        proof {
            assert(r.bytes@ =~= bytes@.subrange(o0 as int, *offset as int));
        }
        Ok(r)
    }
}

impl ConstantFloatInfo {
    /// Reads the fixed payload of this entry shape.
    pub fn read(bytes: &[u8], offset: &mut usize) -> (r: Result<ConstantFloatInfo, Error>)
        ensures
            *old(offset) <= *final(offset),
            r is Ok <==> *old(offset) + 4 <= bytes@.len(),
            r is Ok ==> {
                &&& *final(offset) <= bytes@.len()
                &&& r->Ok_0.tag == CONSTANT_FLOAT
                &&& r->Ok_0.bytes@ == bytes@.subrange(*old(offset) as int, *final(offset) as int)
            },
    {
        let ghost o0 = *offset;
        let v_bytes = match read_n4(bytes, offset) {
            Ok(v) => v,
            Err(e) => {
                return Err(e);
            },
        };
        let r = ConstantFloatInfo { tag: CONSTANT_FLOAT, bytes: v_bytes };
        proof {
            assert(r.bytes@ =~= bytes@.subrange(o0 as int, *offset as int));
        }
        Ok(r)
    }
}

impl ConstantLongInfo {
    /// Reads the fixed payload of this entry shape.
    pub fn read(bytes: &[u8], offset: &mut usize) -> (r: Result<ConstantLongInfo, Error>)
        ensures
            *old(offset) <= *final(offset),
            r is Ok <==> *old(offset) + 8 <= bytes@.len(),
            r is Ok ==> {
                &&& *final(offset) <= bytes@.len()
                &&& r->Ok_0.tag == CONSTANT_LONG
                &&& r->Ok_0.high_bytes@ + r->Ok_0.low_bytes@ == bytes@.subrange(*old(offset) as int, *final(offset) as int)
            },
    {
        let ghost o0 = *offset;
        let v_high_bytes = match read_n4(bytes, offset) {
            Ok(v) => v,
            Err(e) => {
                return Err(e);
            },
        };
        let v_low_bytes = match read_n4(bytes, offset) {
            Ok(v) => v,
            Err(e) => {
                return Err(e);
            },
        };
        let r = ConstantLongInfo { tag: CONSTANT_LONG, high_bytes: v_high_bytes, low_bytes: v_low_bytes };
        proof {
            assert(r.high_bytes@ + r.low_bytes@ =~= bytes@.subrange(o0 as int, *offset as int));
        }
        Ok(r)
    }
}

impl ConstantDoubleInfo {
    /// Reads the fixed payload of this entry shape.
    pub fn read(bytes: &[u8], offset: &mut usize) -> (r: Result<ConstantDoubleInfo, Error>)
        ensures
            *old(offset) <= *final(offset),
            r is Ok <==> *old(offset) + 8 <= bytes@.len(),
            r is Ok ==> {
                &&& *final(offset) <= bytes@.len()
                &&& r->Ok_0.tag == CONSTANT_DOUBLE
                &&& r->Ok_0.high_bytes@ + r->Ok_0.low_bytes@ == bytes@.subrange(*old(offset) as int, *final(offset) as int)
            },
    {
        let ghost o0 = *offset;
        let v_high_bytes = match read_n4(bytes, offset) {
            Ok(v) => v,
            Err(e) => {
                return Err(e);
            },
        };
        let v_low_bytes = match read_n4(bytes, offset) {
            Ok(v) => v,
            Err(e) => {
                return Err(e);
            },
        };
        let r = ConstantDoubleInfo { tag: CONSTANT_DOUBLE, high_bytes: v_high_bytes, low_bytes: v_low_bytes };
        proof {
            assert(r.high_bytes@ + r.low_bytes@ =~= bytes@.subrange(o0 as int, *offset as int));
        }
        Ok(r)
    }
}

impl ConstantClassInfo {
    /// Reads the fixed payload of this entry shape.
    pub fn read(bytes: &[u8], offset: &mut usize) -> (r: Result<ConstantClassInfo, Error>)
        ensures
            *old(offset) <= *final(offset),
            r is Ok <==> *old(offset) + 2 <= bytes@.len(),
            r is Ok ==> {
                &&& *final(offset) <= bytes@.len()
                &&& r->Ok_0.tag == CONSTANT_CLASS
                &&& be16(r->Ok_0.name_index) == bytes@.subrange(*old(offset) as int, *final(offset) as int)
            },
    {
        let ghost o0 = *offset;
        let name_index = match read_u16(bytes, offset) {
            Ok(v) => v,
            Err(e) => {
                return Err(e);
            },
        };
        let r = ConstantClassInfo { tag: CONSTANT_CLASS, name_index };
        proof {
            assert(be16(r.name_index) =~= bytes@.subrange(o0 as int, *offset as int));
        }
        Ok(r)
    }
}

impl ConstantStringInfo {
    /// Reads the fixed payload of this entry shape.
    pub fn read(bytes: &[u8], offset: &mut usize) -> (r: Result<ConstantStringInfo, Error>)
        ensures
            *old(offset) <= *final(offset),
            r is Ok <==> *old(offset) + 2 <= bytes@.len(),
            r is Ok ==> {
                &&& *final(offset) <= bytes@.len()
                &&& r->Ok_0.tag == CONSTANT_STRING
                &&& be16(r->Ok_0.string_index) == bytes@.subrange(*old(offset) as int, *final(offset) as int)
            },
    {
        let ghost o0 = *offset;
        let string_index = match read_u16(bytes, offset) {
            Ok(v) => v,
            Err(e) => {
                return Err(e);
            },
        };
        let r = ConstantStringInfo { tag: CONSTANT_STRING, string_index };
        proof {
            assert(be16(r.string_index) =~= bytes@.subrange(o0 as int, *offset as int));
        }
        Ok(r)
    }
}

impl ConstantFieldrefInfo {
    /// Reads the fixed payload of this entry shape.
    pub fn read(bytes: &[u8], offset: &mut usize) -> (r: Result<ConstantFieldrefInfo, Error>)
        ensures
            *old(offset) <= *final(offset),
            r is Ok <==> *old(offset) + 4 <= bytes@.len(),
            r is Ok ==> {
                &&& *final(offset) <= bytes@.len()
                &&& r->Ok_0.tag == CONSTANT_FIELDREF
                &&& be16(r->Ok_0.class_index) + be16(r->Ok_0.name_and_type_index) == bytes@.subrange(*old(offset) as int, *final(offset) as int)
            },
    {
        let ghost o0 = *offset;
        let class_index = match read_u16(bytes, offset) {
            Ok(v) => v,
            Err(e) => {
                return Err(e);
            },
        };
        let name_and_type_index = match read_u16(bytes, offset) {
            Ok(v) => v,
            Err(e) => {
                return Err(e);
            },
        };
        let r = ConstantFieldrefInfo { tag: CONSTANT_FIELDREF, class_index, name_and_type_index };
        proof {
            assert(be16(r.class_index) + be16(r.name_and_type_index) =~= bytes@.subrange(o0 as int, *offset as int));
        }
        Ok(r)
    }
}

impl ConstantMethodrefInfo {
    /// Reads the fixed payload of this entry shape.
    pub fn read(bytes: &[u8], offset: &mut usize) -> (r: Result<ConstantMethodrefInfo, Error>)
        ensures
            *old(offset) <= *final(offset),
            r is Ok <==> *old(offset) + 4 <= bytes@.len(),
            r is Ok ==> {
                &&& *final(offset) <= bytes@.len()
                &&& r->Ok_0.tag == CONSTANT_METHODREF
                &&& be16(r->Ok_0.class_index) + be16(r->Ok_0.name_and_type_index) == bytes@.subrange(*old(offset) as int, *final(offset) as int)
            },
    {
        let ghost o0 = *offset;
        let class_index = match read_u16(bytes, offset) {
            Ok(v) => v,
            Err(e) => {
                return Err(e);
            },
        };
        let name_and_type_index = match read_u16(bytes, offset) {
            Ok(v) => v,
            Err(e) => {
                return Err(e);
            },
        };
        let r = ConstantMethodrefInfo { tag: CONSTANT_METHODREF, class_index, name_and_type_index };
        proof {
            assert(be16(r.class_index) + be16(r.name_and_type_index) =~= bytes@.subrange(o0 as int, *offset as int));
        }
        Ok(r)
    }
}

impl ConstantInterfaceMethodrefInfo {
    /// Reads the fixed payload of this entry shape.
    pub fn read(bytes: &[u8], offset: &mut usize) -> (r: Result<ConstantInterfaceMethodrefInfo, Error>)
        ensures
            *old(offset) <= *final(offset),
            r is Ok <==> *old(offset) + 4 <= bytes@.len(),
            r is Ok ==> {
                &&& *final(offset) <= bytes@.len()
                &&& r->Ok_0.tag == CONSTANT_INTERFACE_METHODREF
                &&& be16(r->Ok_0.class_index) + be16(r->Ok_0.name_and_type_index) == bytes@.subrange(*old(offset) as int, *final(offset) as int)
            },
    {
        let ghost o0 = *offset;
        let class_index = match read_u16(bytes, offset) {
            Ok(v) => v,
            Err(e) => {
                return Err(e);
            },
        };
        let name_and_type_index = match read_u16(bytes, offset) {
            Ok(v) => v,
            Err(e) => {
                return Err(e);
            },
        };
        let r = ConstantInterfaceMethodrefInfo { tag: CONSTANT_INTERFACE_METHODREF, class_index, name_and_type_index };
        proof {
            assert(be16(r.class_index) + be16(r.name_and_type_index) =~= bytes@.subrange(o0 as int, *offset as int));
        }
        Ok(r)
    }
}

impl ConstantNameAndTypeInfo {
    /// Reads the fixed payload of this entry shape.
    pub fn read(bytes: &[u8], offset: &mut usize) -> (r: Result<ConstantNameAndTypeInfo, Error>)
        ensures
            *old(offset) <= *final(offset),
            r is Ok <==> *old(offset) + 4 <= bytes@.len(),
            r is Ok ==> {
                &&& *final(offset) <= bytes@.len()
                &&& r->Ok_0.tag == CONSTANT_NAME_AND_TYPE
                &&& be16(r->Ok_0.name_index) + be16(r->Ok_0.descriptor_index) == bytes@.subrange(*old(offset) as int, *final(offset) as int)
            },
    {
        let ghost o0 = *offset;
        let name_index = match read_u16(bytes, offset) {
            Ok(v) => v,
            Err(e) => {
                return Err(e);
            },
        };
        let descriptor_index = match read_u16(bytes, offset) {
            Ok(v) => v,
            Err(e) => {
                return Err(e);
            },
        };
        let r = ConstantNameAndTypeInfo { tag: CONSTANT_NAME_AND_TYPE, name_index, descriptor_index };
        proof {
            assert(be16(r.name_index) + be16(r.descriptor_index) =~= bytes@.subrange(o0 as int, *offset as int));
        }
        Ok(r)
    }
}

impl ConstantMethodHandleInfo {
    /// Reads the fixed payload of this entry shape.
    pub fn read(bytes: &[u8], offset: &mut usize) -> (r: Result<ConstantMethodHandleInfo, Error>)
        ensures
            *old(offset) <= *final(offset),
            r is Ok <==> *old(offset) + 3 <= bytes@.len(),
            r is Ok ==> {
                &&& *final(offset) <= bytes@.len()
                &&& r->Ok_0.tag == CONSTANT_METHOD_HANDLE
                &&& seq![r->Ok_0.reference_kind] + be16(r->Ok_0.reference_index) == bytes@.subrange(*old(offset) as int, *final(offset) as int)
            },
    {
        let ghost o0 = *offset;
        let reference_kind = match read_u8(bytes, offset) {
            Ok(v) => v,
            Err(e) => {
                return Err(e);
            },
        };
        let reference_index = match read_u16(bytes, offset) {
            Ok(v) => v,
            Err(e) => {
                return Err(e);
            },
        };
        let r = ConstantMethodHandleInfo { tag: CONSTANT_METHOD_HANDLE, reference_kind, reference_index };
        proof {
            assert(seq![r.reference_kind] + be16(r.reference_index) =~= bytes@.subrange(o0 as int, *offset as int));
        }
        Ok(r)
    }
}

impl ConstantMethodTypeInfo {
    /// Reads the fixed payload of this entry shape.
    pub fn read(bytes: &[u8], offset: &mut usize) -> (r: Result<ConstantMethodTypeInfo, Error>)
        ensures
            *old(offset) <= *final(offset),
            r is Ok <==> *old(offset) + 2 <= bytes@.len(),
            r is Ok ==> {
                &&& *final(offset) <= bytes@.len()
                &&& r->Ok_0.tag == CONSTANT_METHOD_TYPE
                &&& be16(r->Ok_0.descriptor_index) == bytes@.subrange(*old(offset) as int, *final(offset) as int)
            },
    {
        let ghost o0 = *offset;
        let descriptor_index = match read_u16(bytes, offset) {
            Ok(v) => v,
            Err(e) => {
                return Err(e);
            },
        };
        let r = ConstantMethodTypeInfo { tag: CONSTANT_METHOD_TYPE, descriptor_index };
        proof {
            assert(be16(r.descriptor_index) =~= bytes@.subrange(o0 as int, *offset as int));
        }
        Ok(r)
    }
}

impl ConstantDynamicInfo {
    /// Reads the fixed payload of this entry shape.
    pub fn read(bytes: &[u8], offset: &mut usize) -> (r: Result<ConstantDynamicInfo, Error>)
        ensures
            *old(offset) <= *final(offset),
            r is Ok <==> *old(offset) + 4 <= bytes@.len(),
            r is Ok ==> {
                &&& *final(offset) <= bytes@.len()
                &&& r->Ok_0.tag == CONSTANT_DYNAMIC
                &&& be16(r->Ok_0.bootstrap_method_attr_index) + be16(r->Ok_0.name_and_type_index) == bytes@.subrange(*old(offset) as int, *final(offset) as int)
            },
    {
        let ghost o0 = *offset;
        let bootstrap_method_attr_index = match read_u16(bytes, offset) {
            Ok(v) => v,
            Err(e) => {
                return Err(e);
            },
        };
        let name_and_type_index = match read_u16(bytes, offset) {
            Ok(v) => v,
            Err(e) => {
                return Err(e);
            },
        };
        let r = ConstantDynamicInfo { tag: CONSTANT_DYNAMIC, bootstrap_method_attr_index, name_and_type_index };
        proof {
            assert(be16(r.bootstrap_method_attr_index) + be16(r.name_and_type_index) =~= bytes@.subrange(o0 as int, *offset as int));
        }
        Ok(r)
    }
}

impl ConstantInvokeDynamicInfo {
    /// Reads the fixed payload of this entry shape.
    pub fn read(bytes: &[u8], offset: &mut usize) -> (r: Result<ConstantInvokeDynamicInfo, Error>)
        ensures
            *old(offset) <= *final(offset),
            r is Ok <==> *old(offset) + 4 <= bytes@.len(),
            r is Ok ==> {
                &&& *final(offset) <= bytes@.len()
                &&& r->Ok_0.tag == CONSTANT_INVOKE_DYNAMIC
                &&& be16(r->Ok_0.bootstrap_method_attr_index) + be16(r->Ok_0.name_and_type_index) == bytes@.subrange(*old(offset) as int, *final(offset) as int)
            },
    {
        let ghost o0 = *offset;
        let bootstrap_method_attr_index = match read_u16(bytes, offset) {
            Ok(v) => v,
            Err(e) => {
                return Err(e);
            },
        };
        let name_and_type_index = match read_u16(bytes, offset) {
            Ok(v) => v,
            Err(e) => {
                return Err(e);
            },
        };
        let r = ConstantInvokeDynamicInfo { tag: CONSTANT_INVOKE_DYNAMIC, bootstrap_method_attr_index, name_and_type_index };
        proof {
            assert(be16(r.bootstrap_method_attr_index) + be16(r.name_and_type_index) =~= bytes@.subrange(o0 as int, *offset as int));
        }
        Ok(r)
    }
}

impl ConstantModuleInfo {
    /// Reads the fixed payload of this entry shape.
    pub fn read(bytes: &[u8], offset: &mut usize) -> (r: Result<ConstantModuleInfo, Error>)
        ensures
            *old(offset) <= *final(offset),
            r is Ok <==> *old(offset) + 2 <= bytes@.len(),
            r is Ok ==> {
                &&& *final(offset) <= bytes@.len()
                &&& r->Ok_0.tag == CONSTANT_MODULE
                &&& be16(r->Ok_0.name_index) == bytes@.subrange(*old(offset) as int, *final(offset) as int)
            },
    {
        let ghost o0 = *offset;
        let name_index = match read_u16(bytes, offset) {
            Ok(v) => v,
            Err(e) => {
                return Err(e);
            },
        };
        let r = ConstantModuleInfo { tag: CONSTANT_MODULE, name_index };
        proof {
            assert(be16(r.name_index) =~= bytes@.subrange(o0 as int, *offset as int));
        }
        Ok(r)
    }
}

impl ConstantPackageInfo {
    /// Reads the fixed payload of this entry shape.
    pub fn read(bytes: &[u8], offset: &mut usize) -> (r: Result<ConstantPackageInfo, Error>)
        ensures
            *old(offset) <= *final(offset),
            r is Ok <==> *old(offset) + 2 <= bytes@.len(),
            r is Ok ==> {
                &&& *final(offset) <= bytes@.len()
                &&& r->Ok_0.tag == CONSTANT_PACKAGE
                &&& be16(r->Ok_0.name_index) == bytes@.subrange(*old(offset) as int, *final(offset) as int)
            },
    {
        let ghost o0 = *offset;
        let name_index = match read_u16(bytes, offset) {
            Ok(v) => v,
            Err(e) => {
                return Err(e);
            },
        };
        let r = ConstantPackageInfo { tag: CONSTANT_PACKAGE, name_index };
        proof {
            assert(be16(r.name_index) =~= bytes@.subrange(o0 as int, *offset as int));
        }
        Ok(r)
    }
}

impl CpInfo {
    /// Reads one pool entry: a tag byte, then the payload of that tag's
    /// shape. An unknown tag is a hard failure: the tag set is closed.
    pub fn read(bytes: &[u8], offset: &mut usize) -> (r: Result<CpInfo, Error>)
        requires
            *old(offset) <= bytes@.len(),
        ensures
            *old(offset) <= *final(offset),
            (exists|v: CpInfo|
                #![trigger enc_cp_info(v)]
                wf_cp_info(v) && starts_with(
                    bytes@.skip(*old(offset) as int),
                    enc_cp_info(v),
                )) ==> r is Ok,
            r is Ok ==> {
                &&& *final(offset) <= bytes@.len()
                &&& wf_cp_info(r->Ok_0)
                &&& enc_cp_info(r->Ok_0) == bytes@.subrange(*old(offset) as int, *final(offset) as int)
            },
    {
        let ghost o0 = *offset;
        let ghost hyp = exists|v: CpInfo|
            #![trigger enc_cp_info(v)]
            wf_cp_info(v) && starts_with(bytes@.skip(o0 as int), enc_cp_info(v));
        proof {
            if hyp {
                let v = choose|v: CpInfo|
                    #![trigger enc_cp_info(v)]
                    wf_cp_info(v) && starts_with(bytes@.skip(o0 as int), enc_cp_info(v));
                lemma_cp_ready(bytes@, o0 as int, v);
            }
        }
        let tag = match read_u8(bytes, offset) {
            Ok(v) => v,
            Err(e) => {
                return Err(e);
            },
        };
        proof {
            assert(tag == bytes@[o0 as int]) by {
                assert(seq![tag][0] == bytes@.subrange(o0 as int, o0 + 1)[0]);
            }
        }
        match tag {
        CONSTANT_UTF8 => {
            let info = match ConstantUtf8Info::read(bytes, offset) {
                Ok(v) => v,
                Err(e) => {
                    return Err(e);
                },
            };
            proof {
                lemma_subrange_cat(bytes@, o0 as int, o0 + 1, *offset as int);
            }
            let ci = CpInfo::Utf8(info);
            proof {
                assert(enc_cp_info(ci) =~= bytes@.subrange(o0 as int, *offset as int));
            }
            Ok(ci)
        },
        CONSTANT_INTEGER => {
            let info = match ConstantIntegerInfo::read(bytes, offset) {
                Ok(v) => v,
                Err(e) => {
                    return Err(e);
                },
            };
            proof {
                lemma_subrange_cat(bytes@, o0 as int, o0 + 1, *offset as int);
            }
            let ci = CpInfo::Integer(info);
            proof {
                assert(enc_cp_info(ci) =~= bytes@.subrange(o0 as int, *offset as int));
            }
            Ok(ci)
        },
        CONSTANT_FLOAT => {
            let info = match ConstantFloatInfo::read(bytes, offset) {
                Ok(v) => v,
                Err(e) => {
                    return Err(e);
                },
            };
            proof {
                lemma_subrange_cat(bytes@, o0 as int, o0 + 1, *offset as int);
            }
            let ci = CpInfo::Float(info);
            proof {
                assert(enc_cp_info(ci) =~= bytes@.subrange(o0 as int, *offset as int));
            }
            Ok(ci)
        },
        CONSTANT_LONG => {
            let info = match ConstantLongInfo::read(bytes, offset) {
                Ok(v) => v,
                Err(e) => {
                    return Err(e);
                },
            };
            proof {
                lemma_subrange_cat(bytes@, o0 as int, o0 + 1, *offset as int);
            }
            let ci = CpInfo::Long(info);
            proof {
                assert(enc_cp_info(ci) =~= bytes@.subrange(o0 as int, *offset as int));
            }
            Ok(ci)
        },
        CONSTANT_DOUBLE => {
            let info = match ConstantDoubleInfo::read(bytes, offset) {
                Ok(v) => v,
                Err(e) => {
                    return Err(e);
                },
            };
            proof {
                lemma_subrange_cat(bytes@, o0 as int, o0 + 1, *offset as int);
            }
            let ci = CpInfo::Double(info);
            proof {
                assert(enc_cp_info(ci) =~= bytes@.subrange(o0 as int, *offset as int));
            }
            Ok(ci)
        },
        CONSTANT_CLASS => {
            let info = match ConstantClassInfo::read(bytes, offset) {
                Ok(v) => v,
                Err(e) => {
                    return Err(e);
                },
            };
            proof {
                lemma_subrange_cat(bytes@, o0 as int, o0 + 1, *offset as int);
            }
            let ci = CpInfo::Class(info);
            proof {
                assert(enc_cp_info(ci) =~= bytes@.subrange(o0 as int, *offset as int));
            }
            Ok(ci)
        },
        CONSTANT_STRING => {
            let info = match ConstantStringInfo::read(bytes, offset) {
                Ok(v) => v,
                Err(e) => {
                    return Err(e);
                },
            };
            proof {
                lemma_subrange_cat(bytes@, o0 as int, o0 + 1, *offset as int);
            }
            let ci = CpInfo::String(info);
            proof {
                assert(enc_cp_info(ci) =~= bytes@.subrange(o0 as int, *offset as int));
            }
            Ok(ci)
        },
        CONSTANT_FIELDREF => {
            let info = match ConstantFieldrefInfo::read(bytes, offset) {
                Ok(v) => v,
                Err(e) => {
                    return Err(e);
                },
            };
            proof {
                lemma_subrange_cat(bytes@, o0 as int, o0 + 1, *offset as int);
            }
            let ci = CpInfo::Fieldref(info);
            proof {
                assert(enc_cp_info(ci) =~= bytes@.subrange(o0 as int, *offset as int));
            }
            Ok(ci)
        },
        CONSTANT_METHODREF => {
            let info = match ConstantMethodrefInfo::read(bytes, offset) {
                Ok(v) => v,
                Err(e) => {
                    return Err(e);
                },
            };
            proof {
                lemma_subrange_cat(bytes@, o0 as int, o0 + 1, *offset as int);
            }
            let ci = CpInfo::Methodref(info);
            proof {
                assert(enc_cp_info(ci) =~= bytes@.subrange(o0 as int, *offset as int));
            }
            Ok(ci)
        },
        CONSTANT_INTERFACE_METHODREF => {
            let info = match ConstantInterfaceMethodrefInfo::read(bytes, offset) {
                Ok(v) => v,
                Err(e) => {
                    return Err(e);
                },
            };
            proof {
                lemma_subrange_cat(bytes@, o0 as int, o0 + 1, *offset as int);
            }
            let ci = CpInfo::InterfaceMethodref(info);
            proof {
                assert(enc_cp_info(ci) =~= bytes@.subrange(o0 as int, *offset as int));
            }
            Ok(ci)
        },
        CONSTANT_NAME_AND_TYPE => {
            let info = match ConstantNameAndTypeInfo::read(bytes, offset) {
                Ok(v) => v,
                Err(e) => {
                    return Err(e);
                },
            };
            proof {
                lemma_subrange_cat(bytes@, o0 as int, o0 + 1, *offset as int);
            }
            let ci = CpInfo::NameAndType(info);
            proof {
                assert(enc_cp_info(ci) =~= bytes@.subrange(o0 as int, *offset as int));
            }
            Ok(ci)
        },
        CONSTANT_METHOD_HANDLE => {
            let info = match ConstantMethodHandleInfo::read(bytes, offset) {
                Ok(v) => v,
                Err(e) => {
                    return Err(e);
                },
            };
            proof {
                lemma_subrange_cat(bytes@, o0 as int, o0 + 1, *offset as int);
            }
            let ci = CpInfo::MethodHandle(info);
            proof {
                assert(enc_cp_info(ci) =~= bytes@.subrange(o0 as int, *offset as int));
            }
            Ok(ci)
        },
        CONSTANT_METHOD_TYPE => {
            let info = match ConstantMethodTypeInfo::read(bytes, offset) {
                Ok(v) => v,
                Err(e) => {
                    return Err(e);
                },
            };
            proof {
                lemma_subrange_cat(bytes@, o0 as int, o0 + 1, *offset as int);
            }
            let ci = CpInfo::MethodType(info);
            proof {
                assert(enc_cp_info(ci) =~= bytes@.subrange(o0 as int, *offset as int));
            }
            Ok(ci)
        },
        CONSTANT_DYNAMIC => {
            let info = match ConstantDynamicInfo::read(bytes, offset) {
                Ok(v) => v,
                Err(e) => {
                    return Err(e);
                },
            };
            proof {
                lemma_subrange_cat(bytes@, o0 as int, o0 + 1, *offset as int);
            }
            let ci = CpInfo::Dynamic(info);
            proof {
                assert(enc_cp_info(ci) =~= bytes@.subrange(o0 as int, *offset as int));
            }
            Ok(ci)
        },
        CONSTANT_INVOKE_DYNAMIC => {
            let info = match ConstantInvokeDynamicInfo::read(bytes, offset) {
                Ok(v) => v,
                Err(e) => {
                    return Err(e);
                },
            };
            proof {
                lemma_subrange_cat(bytes@, o0 as int, o0 + 1, *offset as int);
            }
            let ci = CpInfo::InvokeDynamic(info);
            proof {
                assert(enc_cp_info(ci) =~= bytes@.subrange(o0 as int, *offset as int));
            }
            Ok(ci)
        },
        CONSTANT_MODULE => {
            let info = match ConstantModuleInfo::read(bytes, offset) {
                Ok(v) => v,
                Err(e) => {
                    return Err(e);
                },
            };
            proof {
                lemma_subrange_cat(bytes@, o0 as int, o0 + 1, *offset as int);
            }
            let ci = CpInfo::Module(info);
            proof {
                assert(enc_cp_info(ci) =~= bytes@.subrange(o0 as int, *offset as int));
            }
            Ok(ci)
        },
        CONSTANT_PACKAGE => {
            let info = match ConstantPackageInfo::read(bytes, offset) {
                Ok(v) => v,
                Err(e) => {
                    return Err(e);
                },
            };
            proof {
                lemma_subrange_cat(bytes@, o0 as int, o0 + 1, *offset as int);
            }
            let ci = CpInfo::Package(info);
            proof {
                assert(enc_cp_info(ci) =~= bytes@.subrange(o0 as int, *offset as int));
            }
            Ok(ci)
        },
            _ => {
                let mut m = "unsupported tag ".to_owned();
                m.append(usize_to_string(tag as usize).as_str());
                reader_error(m.as_str(), *offset)
            },
        }
    }
}

/// Reads `num_of_items` pool entries, one after the other.
#[verifier::loop_isolation(false)]
#[verifier::rlimit(100)]
#[verifier::spinoff_prover]
pub fn read_cp_infos(bytes: &[u8], offset: &mut usize, num_of_items: usize) -> (r: Result<
    Vec<CpInfo>,
    Error,
>)
    requires
        *old(offset) <= bytes@.len(),
    ensures
        *old(offset) <= *final(offset),
        (exists|s: Seq<CpInfo>|
            #![trigger enc_cp_list(s)]
            s.len() == num_of_items && wf_cp_list(s) && starts_with(
                bytes@.skip(*old(offset) as int),
                enc_cp_list(s),
            )) ==> r is Ok,
        r is Ok ==> {
            &&& *final(offset) <= bytes@.len()
            &&& r->Ok_0@.len() == num_of_items
            &&& wf_cp_list(r->Ok_0@)
            &&& enc_cp_list(r->Ok_0@) == bytes@.subrange(*old(offset) as int, *final(offset) as int)
        },
{
    let ghost o0 = *offset;
    let ghost hyp = exists|s: Seq<CpInfo>|
        #![trigger enc_cp_list(s)]
        s.len() == num_of_items && wf_cp_list(s) && starts_with(
            bytes@.skip(o0 as int),
            enc_cp_list(s),
        );
    let ghost w: Seq<CpInfo> = if hyp {
        choose|s: Seq<CpInfo>|
            #![trigger enc_cp_list(s)]
            s.len() == num_of_items && wf_cp_list(s) && starts_with(
                bytes@.skip(o0 as int),
                enc_cp_list(s),
            )
    } else {
        Seq::empty()
    };
    proof {
        if hyp {
            assert(w.skip(0) =~= w);
        }
        assert(enc_cp_list(Seq::<CpInfo>::empty()) =~= bytes@.subrange(o0 as int, o0 as int));
    }
    let mut items: Vec<CpInfo> = Vec::new();
    let mut k: usize = 0;
    while k < num_of_items
        invariant
            o0 <= *offset,
            *offset <= bytes@.len(),
            items@.len() == k,
            k <= num_of_items,
            wf_cp_list(items@),
            enc_cp_list(items@) == bytes@.subrange(o0 as int, *offset as int),
            hyp ==> starts_with(bytes@.skip(*offset as int), enc_cp_list(w.skip(k as int))),
        decreases num_of_items - k,
    {
        let ghost before = *offset;
        proof {
            if hyp {
                assert(w.skip(k as int).len() > 0);
                assert(w.skip(k as int)[0] == w[k as int]);
                assert(w.skip(k as int).drop_first() =~= w.skip(k + 1));
                assert(enc_cp_list(w.skip(k as int)) == enc_cp_info(w[k as int]) + enc_cp_list(
                    w.skip(k + 1),
                ));
                lemma_starts_with_cat(
                    bytes@.skip(before as int),
                    enc_cp_info(w[k as int]),
                    enc_cp_list(w.skip(k + 1)),
                );
                assert(wf_cp_info(w[k as int]));
            }
        }
        let item = match CpInfo::read(bytes, offset) {
            Ok(v) => v,
            Err(e) => {
                return Err(e);
            },
        };
        proof {
            lemma_enc_cp_list_push(items@, item);
            lemma_subrange_cat(bytes@, o0 as int, before as int, *offset as int);
            if hyp {
                lemma_starts_with_split(bytes@.skip(before as int), enc_cp_info(w[k as int]));
                assert(bytes@.skip(before as int) =~= enc_cp_info(item) + bytes@.skip(
                    *offset as int,
                ));
                lemma_cp_info_det(item, bytes@.skip(*offset as int), w[k as int], bytes@.skip(before as int).skip(enc_cp_info(w[k as int]).len() as int));
                assert(starts_with(bytes@.skip(*offset as int), enc_cp_list(w.skip(k + 1))));
            }
            assert(forall|i: int|
                0 <= i < items@.push(item).len() ==> wf_cp_info(#[trigger] items@.push(item)[i]));
        }
        items.push(item);
        k = k + 1;
    }
    Ok(items)
}


impl ExceptionTable {
    /// Reads one exception-handler row: four 16-bit fields.
    pub fn read(bytes: &[u8], offset: &mut usize) -> (r: Result<ExceptionTable, Error>)
        ensures
            *old(offset) <= *final(offset),
            r is Ok <==> *old(offset) + 8 <= bytes@.len(),
            r is Ok ==> {
                &&& *final(offset) <= bytes@.len()
                &&& enc_exception_table(r->Ok_0) == bytes@.subrange(*old(offset) as int, *final(offset) as int)
            },
    {
        let ghost o0 = *offset;
        let start_pc = match read_u16(bytes, offset) {
            Ok(v) => v,
            Err(e) => {
                return Err(e);
            },
        };
        let end_pc = match read_u16(bytes, offset) {
            Ok(v) => v,
            Err(e) => {
                return Err(e);
            },
        };
        let handler_pc = match read_u16(bytes, offset) {
            Ok(v) => v,
            Err(e) => {
                return Err(e);
            },
        };
        let catch_type = match read_u16(bytes, offset) {
            Ok(v) => v,
            Err(e) => {
                return Err(e);
            },
        };
        let r = ExceptionTable { start_pc, end_pc, handler_pc, catch_type };
        proof {
            assert(enc_exception_table(r) =~= bytes@.subrange(o0 as int, *offset as int));
        }
        Ok(r)
    }
}

impl Parameter {
    /// Reads one method parameter: a name index and its flags.
    pub fn read(bytes: &[u8], offset: &mut usize) -> (r: Result<Parameter, Error>)
        ensures
            *old(offset) <= *final(offset),
            r is Ok <==> *old(offset) + 4 <= bytes@.len(),
            r is Ok ==> {
                &&& *final(offset) <= bytes@.len()
                &&& enc_parameter(r->Ok_0) == bytes@.subrange(*old(offset) as int, *final(offset) as int)
            },
    {
        let ghost o0 = *offset;
        let name_index = match read_u16(bytes, offset) {
            Ok(v) => v,
            Err(e) => {
                return Err(e);
            },
        };
        let access_flags = match read_u16(bytes, offset) {
            Ok(v) => v,
            Err(e) => {
                return Err(e);
            },
        };
        let r = Parameter { name_index, access_flags };
        proof {
            assert(enc_parameter(r) =~= bytes@.subrange(o0 as int, *offset as int));
        }
        Ok(r)
    }
}

impl Require {
    /// Reads one module requirement: index, flags and version index.
    pub fn read(bytes: &[u8], offset: &mut usize) -> (r: Result<Require, Error>)
        ensures
            *old(offset) <= *final(offset),
            r is Ok <==> *old(offset) + 6 <= bytes@.len(),
            r is Ok ==> {
                &&& *final(offset) <= bytes@.len()
                &&& enc_require(r->Ok_0) == bytes@.subrange(*old(offset) as int, *final(offset) as int)
            },
    {
        let ghost o0 = *offset;
        let requires_index = match read_u16(bytes, offset) {
            Ok(v) => v,
            Err(e) => {
                return Err(e);
            },
        };
        let requires_flags = match read_u16(bytes, offset) {
            Ok(v) => v,
            Err(e) => {
                return Err(e);
            },
        };
        let requires_version_index = match read_u16(bytes, offset) {
            Ok(v) => v,
            Err(e) => {
                return Err(e);
            },
        };
        let r = Require { requires_index, requires_flags, requires_version_index };
        proof {
            assert(enc_require(r) =~= bytes@.subrange(o0 as int, *offset as int));
        }
        Ok(r)
    }
}

/// Reads `num_of_items` 16-bit values, one after the other.
#[verifier::loop_isolation(false)]
pub fn read_u16s(bytes: &[u8], offset: &mut usize, num_of_items: usize) -> (r: Result<
    Vec<u16>,
    Error,
>)
    requires
        *old(offset) <= bytes@.len(),
    ensures
        *old(offset) <= *final(offset),
        r is Ok <==> *old(offset) + 2 * num_of_items <= bytes@.len(),
        r is Ok ==> {
            &&& *final(offset) <= bytes@.len()
            &&& r->Ok_0@.len() == num_of_items
            &&& enc_u16_list(r->Ok_0@) == bytes@.subrange(*old(offset) as int, *final(offset) as int)
        },
{
    let ghost o0 = *offset;
    proof {
        assert(enc_u16_list(Seq::<u16>::empty()) =~= bytes@.subrange(o0 as int, o0 as int));
    }
    let mut items: Vec<u16> = Vec::new();
    let mut k: usize = 0;
    while k < num_of_items
        invariant
            *offset == o0 + 2 * k,
            *offset <= bytes@.len(),
            items@.len() == k,
            k <= num_of_items,
            enc_u16_list(items@) == bytes@.subrange(o0 as int, *offset as int),
        decreases num_of_items - k,
    {
        let ghost before = *offset;
        let item = match read_u16(bytes, offset) {
            Ok(v) => v,
            Err(e) => {
                return Err(e);
            },
        };
        proof {
            lemma_enc_u16_list_push(items@, item);
            lemma_subrange_cat(bytes@, o0 as int, before as int, *offset as int);
        }
        items.push(item);
        k = k + 1;
    }
    Ok(items)
}

/// Reads `num_of_items` exception-handler rows.
#[verifier::loop_isolation(false)]
pub fn read_exception_tables(bytes: &[u8], offset: &mut usize, num_of_items: usize) -> (r: Result<
    Vec<ExceptionTable>,
    Error,
>)
    requires
        *old(offset) <= bytes@.len(),
    ensures
        *old(offset) <= *final(offset),
        r is Ok <==> *old(offset) + 8 * num_of_items <= bytes@.len(),
        r is Ok ==> {
            &&& *final(offset) <= bytes@.len()
            &&& r->Ok_0@.len() == num_of_items
            &&& enc_exception_list(r->Ok_0@) == bytes@.subrange(*old(offset) as int, *final(offset) as int)
        },
{
    let ghost o0 = *offset;
    proof {
        assert(enc_exception_list(Seq::<ExceptionTable>::empty()) =~= bytes@.subrange(o0 as int, o0 as int));
    }
    let mut items: Vec<ExceptionTable> = Vec::new();
    let mut k: usize = 0;
    while k < num_of_items
        invariant
            *offset == o0 + 8 * k,
            *offset <= bytes@.len(),
            items@.len() == k,
            k <= num_of_items,
            enc_exception_list(items@) == bytes@.subrange(o0 as int, *offset as int),
        decreases num_of_items - k,
    {
        let ghost before = *offset;
        let item = match ExceptionTable::read(bytes, offset) {
            Ok(v) => v,
            Err(e) => {
                return Err(e);
            },
        };
        proof {
            lemma_enc_exception_list_push(items@, item);
            lemma_subrange_cat(bytes@, o0 as int, before as int, *offset as int);
        }
        items.push(item);
        k = k + 1;
    }
    Ok(items)
}

/// Reads `num_of_items` method parameters.
#[verifier::loop_isolation(false)]
pub fn read_parameters(bytes: &[u8], offset: &mut usize, num_of_items: usize) -> (r: Result<
    Vec<Parameter>,
    Error,
>)
    requires
        *old(offset) <= bytes@.len(),
    ensures
        *old(offset) <= *final(offset),
        r is Ok <==> *old(offset) + 4 * num_of_items <= bytes@.len(),
        r is Ok ==> {
            &&& *final(offset) <= bytes@.len()
            &&& r->Ok_0@.len() == num_of_items
            &&& enc_parameter_list(r->Ok_0@) == bytes@.subrange(*old(offset) as int, *final(offset) as int)
        },
{
    let ghost o0 = *offset;
    proof {
        assert(enc_parameter_list(Seq::<Parameter>::empty()) =~= bytes@.subrange(o0 as int, o0 as int));
    }
    let mut items: Vec<Parameter> = Vec::new();
    let mut k: usize = 0;
    while k < num_of_items
        invariant
            *offset == o0 + 4 * k,
            *offset <= bytes@.len(),
            items@.len() == k,
            k <= num_of_items,
            enc_parameter_list(items@) == bytes@.subrange(o0 as int, *offset as int),
        decreases num_of_items - k,
    {
        let ghost before = *offset;
        let item = match Parameter::read(bytes, offset) {
            Ok(v) => v,
            Err(e) => {
                return Err(e);
            },
        };
        proof {
            lemma_enc_parameter_list_push(items@, item);
            lemma_subrange_cat(bytes@, o0 as int, before as int, *offset as int);
        }
        items.push(item);
        k = k + 1;
    }
    Ok(items)
}

/// Reads `num_of_items` module requirements.
#[verifier::loop_isolation(false)]
pub fn read_require_list(bytes: &[u8], offset: &mut usize, num_of_items: usize) -> (r: Result<
    Vec<Require>,
    Error,
>)
    requires
        *old(offset) <= bytes@.len(),
    ensures
        *old(offset) <= *final(offset),
        r is Ok <==> *old(offset) + 6 * num_of_items <= bytes@.len(),
        r is Ok ==> {
            &&& *final(offset) <= bytes@.len()
            &&& r->Ok_0@.len() == num_of_items
            &&& enc_require_list(r->Ok_0@) == bytes@.subrange(*old(offset) as int, *final(offset) as int)
        },
{
    let ghost o0 = *offset;
    proof {
        assert(enc_require_list(Seq::<Require>::empty()) =~= bytes@.subrange(o0 as int, o0 as int));
    }
    let mut items: Vec<Require> = Vec::new();
    let mut k: usize = 0;
    while k < num_of_items
        invariant
            *offset == o0 + 6 * k,
            *offset <= bytes@.len(),
            items@.len() == k,
            k <= num_of_items,
            enc_require_list(items@) == bytes@.subrange(o0 as int, *offset as int),
        decreases num_of_items - k,
    {
        let ghost before = *offset;
        let item = match Require::read(bytes, offset) {
            Ok(v) => v,
            Err(e) => {
                return Err(e);
            },
        };
        proof {
            lemma_enc_require_list_push(items@, item);
            lemma_subrange_cat(bytes@, o0 as int, before as int, *offset as int);
        }
        items.push(item);
        k = k + 1;
    }
    Ok(items)
}

impl BootstrapMethod {
    /// Reads one bootstrap-method row: the handle index and its arguments.
    pub fn read(bytes: &[u8], offset: &mut usize) -> (r: Result<BootstrapMethod, Error>)
        requires
            *old(offset) <= bytes@.len(),
        ensures
            *old(offset) <= *final(offset),
            r is Ok <==> *old(offset) + 4 <= bytes@.len() && *old(offset) + 4 + 2 * be16_at(
                bytes@,
                *old(offset) + 2,
            ) <= bytes@.len(),
            r is Ok ==> {
                &&& *final(offset) <= bytes@.len()
                &&& wf_bootstrap_method(r->Ok_0)
                &&& enc_bootstrap_method(r->Ok_0) == bytes@.subrange(*old(offset) as int, *final(offset) as int)
            },
    {
        let ghost o0 = *offset;
        let bootstrap_method_ref = match read_u16(bytes, offset) {
            Ok(v) => v,
            Err(e) => {
                return Err(e);
            },
        };
        let num_bootstrap_arguments = match read_u16(bytes, offset) {
            Ok(v) => v,
            Err(e) => {
                return Err(e);
            },
        };
        proof {
            lemma_be16_at(bytes@, o0 + 2, num_bootstrap_arguments);
        }
        let bootstrap_arguments = match read_u16s(bytes, offset, num_bootstrap_arguments as usize) {
            Ok(v) => v,
            Err(e) => {
                return Err(e);
            },
        };
        let r = BootstrapMethod { bootstrap_method_ref, num_bootstrap_arguments, bootstrap_arguments };
        proof {
            assert(enc_bootstrap_method(r) =~= bytes@.subrange(o0 as int, *offset as int));
        }
        Ok(r)
    }
}

impl Export {
    /// Reads one module export: index, flags, and its target modules.
    pub fn read(bytes: &[u8], offset: &mut usize) -> (r: Result<Export, Error>)
        requires
            *old(offset) <= bytes@.len(),
        ensures
            *old(offset) <= *final(offset),
            r is Ok <==> *old(offset) + 6 <= bytes@.len() && *old(offset) + 6 + 2 * be16_at(
                bytes@,
                *old(offset) + 4,
            ) <= bytes@.len(),
            r is Ok ==> {
                &&& *final(offset) <= bytes@.len()
                &&& wf_export(r->Ok_0)
                &&& enc_export(r->Ok_0) == bytes@.subrange(*old(offset) as int, *final(offset) as int)
            },
    {
        let ghost o0 = *offset;
        let exports_index = match read_u16(bytes, offset) {
            Ok(v) => v,
            Err(e) => {
                return Err(e);
            },
        };
        let exports_flags = match read_u16(bytes, offset) {
            Ok(v) => v,
            Err(e) => {
                return Err(e);
            },
        };
        let exports_to_count = match read_u16(bytes, offset) {
            Ok(v) => v,
            Err(e) => {
                return Err(e);
            },
        };
        proof {
            lemma_be16_at(bytes@, o0 + 4, exports_to_count);
        }
        let exports_to_index = match read_u16s(bytes, offset, exports_to_count as usize) {
            Ok(v) => v,
            Err(e) => {
                return Err(e);
            },
        };
        let r = Export { exports_index, exports_flags, exports_to_count, exports_to_index };
        proof {
            assert(enc_export(r) =~= bytes@.subrange(o0 as int, *offset as int));
        }
        Ok(r)
    }
}

impl Open {
    /// Reads one module opening: index, flags, and its target modules.
    pub fn read(bytes: &[u8], offset: &mut usize) -> (r: Result<Open, Error>)
        requires
            *old(offset) <= bytes@.len(),
        ensures
            *old(offset) <= *final(offset),
            r is Ok <==> *old(offset) + 6 <= bytes@.len() && *old(offset) + 6 + 2 * be16_at(
                bytes@,
                *old(offset) + 4,
            ) <= bytes@.len(),
            r is Ok ==> {
                &&& *final(offset) <= bytes@.len()
                &&& wf_open(r->Ok_0)
                &&& enc_open(r->Ok_0) == bytes@.subrange(*old(offset) as int, *final(offset) as int)
            },
    {
        let ghost o0 = *offset;
        let opens_index = match read_u16(bytes, offset) {
            Ok(v) => v,
            Err(e) => {
                return Err(e);
            },
        };
        let opens_flags = match read_u16(bytes, offset) {
            Ok(v) => v,
            Err(e) => {
                return Err(e);
            },
        };
        let opens_to_count = match read_u16(bytes, offset) {
            Ok(v) => v,
            Err(e) => {
                return Err(e);
            },
        };
        proof {
            lemma_be16_at(bytes@, o0 + 4, opens_to_count);
        }
        let opens_to_index = match read_u16s(bytes, offset, opens_to_count as usize) {
            Ok(v) => v,
            Err(e) => {
                return Err(e);
            },
        };
        let r = Open { opens_index, opens_flags, opens_to_count, opens_to_index };
        proof {
            assert(enc_open(r) =~= bytes@.subrange(o0 as int, *offset as int));
        }
        Ok(r)
    }
}

impl Provide {
    /// Reads one module provision: the service index and its providers.
    pub fn read(bytes: &[u8], offset: &mut usize) -> (r: Result<Provide, Error>)
        requires
            *old(offset) <= bytes@.len(),
        ensures
            *old(offset) <= *final(offset),
            r is Ok <==> *old(offset) + 4 <= bytes@.len() && *old(offset) + 4 + 2 * be16_at(
                bytes@,
                *old(offset) + 2,
            ) <= bytes@.len(),
            r is Ok ==> {
                &&& *final(offset) <= bytes@.len()
                &&& wf_provide(r->Ok_0)
                &&& enc_provide(r->Ok_0) == bytes@.subrange(*old(offset) as int, *final(offset) as int)
            },
    {
        let ghost o0 = *offset;
        let provides_index = match read_u16(bytes, offset) {
            Ok(v) => v,
            Err(e) => {
                return Err(e);
            },
        };
        let provides_with_count = match read_u16(bytes, offset) {
            Ok(v) => v,
            Err(e) => {
                return Err(e);
            },
        };
        proof {
            lemma_be16_at(bytes@, o0 + 2, provides_with_count);
        }
        let provides_with_index = match read_u16s(bytes, offset, provides_with_count as usize) {
            Ok(v) => v,
            Err(e) => {
                return Err(e);
            },
        };
        let r = Provide { provides_index, provides_with_count, provides_with_index };
        proof {
            assert(enc_provide(r) =~= bytes@.subrange(o0 as int, *offset as int));
        }
        Ok(r)
    }
}

/// Reads `num_of_items` bootstrap-method rows.
#[verifier::loop_isolation(false)]
pub fn read_bootstrap_methods(bytes: &[u8], offset: &mut usize, num_of_items: usize) -> (r: Result<
    Vec<BootstrapMethod>,
    Error,
>)
    requires
        *old(offset) <= bytes@.len(),
    ensures
        *old(offset) <= *final(offset),
        (exists|s: Seq<BootstrapMethod>|
            #![trigger enc_bootstrap_list(s)]
            s.len() == num_of_items && wf_bootstrap_list_all(s) && starts_with(
                bytes@.skip(*old(offset) as int),
                enc_bootstrap_list(s),
            )) ==> r is Ok,
        r is Ok ==> {
            &&& *final(offset) <= bytes@.len()
            &&& r->Ok_0@.len() == num_of_items
            &&& wf_bootstrap_list_all(r->Ok_0@)
            &&& enc_bootstrap_list(r->Ok_0@) == bytes@.subrange(*old(offset) as int, *final(offset) as int)
        },
{
    let ghost o0 = *offset;
    let ghost hyp = exists|s: Seq<BootstrapMethod>|
        #![trigger enc_bootstrap_list(s)]
        s.len() == num_of_items && wf_bootstrap_list_all(s) && starts_with(
            bytes@.skip(o0 as int),
            enc_bootstrap_list(s),
        );
    let ghost w: Seq<BootstrapMethod> = if hyp {
        choose|s: Seq<BootstrapMethod>|
            #![trigger enc_bootstrap_list(s)]
            s.len() == num_of_items && wf_bootstrap_list_all(s) && starts_with(
                bytes@.skip(o0 as int),
                enc_bootstrap_list(s),
            )
    } else {
        Seq::empty()
    };
    proof {
        if hyp {
            assert(w.skip(0) =~= w);
        }
        assert(enc_bootstrap_list(Seq::<BootstrapMethod>::empty()) =~= bytes@.subrange(o0 as int, o0 as int));
    }
    let mut items: Vec<BootstrapMethod> = Vec::new();
    let mut k: usize = 0;
    while k < num_of_items
        invariant
            o0 <= *offset,
            *offset <= bytes@.len(),
            items@.len() == k,
            k <= num_of_items,
            wf_bootstrap_list_all(items@),
            enc_bootstrap_list(items@) == bytes@.subrange(o0 as int, *offset as int),
            hyp ==> starts_with(bytes@.skip(*offset as int), enc_bootstrap_list(w.skip(k as int))),
        decreases num_of_items - k,
    {
        let ghost before = *offset;
        proof {
            if hyp {
                assert(w.skip(k as int).len() > 0);
                assert(w.skip(k as int)[0] == w[k as int]);
                assert(w.skip(k as int).drop_first() =~= w.skip(k + 1));
                assert(enc_bootstrap_list(w.skip(k as int)) == enc_bootstrap_method(w[k as int]) + enc_bootstrap_list(
                    w.skip(k + 1),
                ));
                lemma_starts_with_cat(
                    bytes@.skip(before as int),
                    enc_bootstrap_method(w[k as int]),
                    enc_bootstrap_list(w.skip(k + 1)),
                );
                assert(wf_bootstrap_method(w[k as int]));
                lemma_bootstrap_ready(bytes@, before as int, w[k as int]);
            }
        }
        let item = match BootstrapMethod::read(bytes, offset) {
            Ok(v) => v,
            Err(e) => {
                return Err(e);
            },
        };
        proof {
            lemma_enc_bootstrap_list_push(items@, item);
            lemma_subrange_cat(bytes@, o0 as int, before as int, *offset as int);
            if hyp {
                lemma_starts_with_split(bytes@.skip(before as int), enc_bootstrap_method(w[k as int]));
                assert(bytes@.skip(before as int) =~= enc_bootstrap_method(item) + bytes@.skip(
                    *offset as int,
                ));
                lemma_bootstrap_det(item, bytes@.skip(*offset as int), w[k as int], bytes@.skip(before as int).skip(enc_bootstrap_method(w[k as int]).len() as int));
                assert(starts_with(bytes@.skip(*offset as int), enc_bootstrap_list(w.skip(k + 1))));
            }
            assert(forall|i: int|
                0 <= i < items@.push(item).len() ==> wf_bootstrap_method(#[trigger] items@.push(item)[i]));
        }
        items.push(item);
        k = k + 1;
    }
    Ok(items)
}

/// Reads `num_of_items` module exports.
#[verifier::loop_isolation(false)]
pub fn read_export_list(bytes: &[u8], offset: &mut usize, num_of_items: usize) -> (r: Result<
    Vec<Export>,
    Error,
>)
    requires
        *old(offset) <= bytes@.len(),
    ensures
        *old(offset) <= *final(offset),
        (exists|s: Seq<Export>|
            #![trigger enc_export_list(s)]
            s.len() == num_of_items && wf_export_list_all(s) && starts_with(
                bytes@.skip(*old(offset) as int),
                enc_export_list(s),
            )) ==> r is Ok,
        r is Ok ==> {
            &&& *final(offset) <= bytes@.len()
            &&& r->Ok_0@.len() == num_of_items
            &&& wf_export_list_all(r->Ok_0@)
            &&& enc_export_list(r->Ok_0@) == bytes@.subrange(*old(offset) as int, *final(offset) as int)
        },
{
    let ghost o0 = *offset;
    let ghost hyp = exists|s: Seq<Export>|
        #![trigger enc_export_list(s)]
        s.len() == num_of_items && wf_export_list_all(s) && starts_with(
            bytes@.skip(o0 as int),
            enc_export_list(s),
        );
    let ghost w: Seq<Export> = if hyp {
        choose|s: Seq<Export>|
            #![trigger enc_export_list(s)]
            s.len() == num_of_items && wf_export_list_all(s) && starts_with(
                bytes@.skip(o0 as int),
                enc_export_list(s),
            )
    } else {
        Seq::empty()
    };
    proof {
        if hyp {
            assert(w.skip(0) =~= w);
        }
        assert(enc_export_list(Seq::<Export>::empty()) =~= bytes@.subrange(o0 as int, o0 as int));
    }
    let mut items: Vec<Export> = Vec::new();
    let mut k: usize = 0;
    while k < num_of_items
        invariant
            o0 <= *offset,
            *offset <= bytes@.len(),
            items@.len() == k,
            k <= num_of_items,
            wf_export_list_all(items@),
            enc_export_list(items@) == bytes@.subrange(o0 as int, *offset as int),
            hyp ==> starts_with(bytes@.skip(*offset as int), enc_export_list(w.skip(k as int))),
        decreases num_of_items - k,
    {
        let ghost before = *offset;
        proof {
            if hyp {
                assert(w.skip(k as int).len() > 0);
                assert(w.skip(k as int)[0] == w[k as int]);
                assert(w.skip(k as int).drop_first() =~= w.skip(k + 1));
                assert(enc_export_list(w.skip(k as int)) == enc_export(w[k as int]) + enc_export_list(
                    w.skip(k + 1),
                ));
                lemma_starts_with_cat(
                    bytes@.skip(before as int),
                    enc_export(w[k as int]),
                    enc_export_list(w.skip(k + 1)),
                );
                assert(wf_export(w[k as int]));
                lemma_export_ready(bytes@, before as int, w[k as int]);
            }
        }
        let item = match Export::read(bytes, offset) {
            Ok(v) => v,
            Err(e) => {
                return Err(e);
            },
        };
        proof {
            lemma_enc_export_list_push(items@, item);
            lemma_subrange_cat(bytes@, o0 as int, before as int, *offset as int);
            if hyp {
                lemma_starts_with_split(bytes@.skip(before as int), enc_export(w[k as int]));
                assert(bytes@.skip(before as int) =~= enc_export(item) + bytes@.skip(
                    *offset as int,
                ));
                lemma_export_det(item, bytes@.skip(*offset as int), w[k as int], bytes@.skip(before as int).skip(enc_export(w[k as int]).len() as int));
                assert(starts_with(bytes@.skip(*offset as int), enc_export_list(w.skip(k + 1))));
            }
            assert(forall|i: int|
                0 <= i < items@.push(item).len() ==> wf_export(#[trigger] items@.push(item)[i]));
        }
        items.push(item);
        k = k + 1;
    }
    Ok(items)
}

/// Reads `num_of_items` module openings.
#[verifier::loop_isolation(false)]
pub fn read_open_list(bytes: &[u8], offset: &mut usize, num_of_items: usize) -> (r: Result<
    Vec<Open>,
    Error,
>)
    requires
        *old(offset) <= bytes@.len(),
    ensures
        *old(offset) <= *final(offset),
        (exists|s: Seq<Open>|
            #![trigger enc_open_list(s)]
            s.len() == num_of_items && wf_open_list_all(s) && starts_with(
                bytes@.skip(*old(offset) as int),
                enc_open_list(s),
            )) ==> r is Ok,
        r is Ok ==> {
            &&& *final(offset) <= bytes@.len()
            &&& r->Ok_0@.len() == num_of_items
            &&& wf_open_list_all(r->Ok_0@)
            &&& enc_open_list(r->Ok_0@) == bytes@.subrange(*old(offset) as int, *final(offset) as int)
        },
{
    let ghost o0 = *offset;
    let ghost hyp = exists|s: Seq<Open>|
        #![trigger enc_open_list(s)]
        s.len() == num_of_items && wf_open_list_all(s) && starts_with(
            bytes@.skip(o0 as int),
            enc_open_list(s),
        );
    let ghost w: Seq<Open> = if hyp {
        choose|s: Seq<Open>|
            #![trigger enc_open_list(s)]
            s.len() == num_of_items && wf_open_list_all(s) && starts_with(
                bytes@.skip(o0 as int),
                enc_open_list(s),
            )
    } else {
        Seq::empty()
    };
    proof {
        if hyp {
            assert(w.skip(0) =~= w);
        }
        assert(enc_open_list(Seq::<Open>::empty()) =~= bytes@.subrange(o0 as int, o0 as int));
    }
    let mut items: Vec<Open> = Vec::new();
    let mut k: usize = 0;
    while k < num_of_items
        invariant
            o0 <= *offset,
            *offset <= bytes@.len(),
            items@.len() == k,
            k <= num_of_items,
            wf_open_list_all(items@),
            enc_open_list(items@) == bytes@.subrange(o0 as int, *offset as int),
            hyp ==> starts_with(bytes@.skip(*offset as int), enc_open_list(w.skip(k as int))),
        decreases num_of_items - k,
    {
        let ghost before = *offset;
        proof {
            if hyp {
                assert(w.skip(k as int).len() > 0);
                assert(w.skip(k as int)[0] == w[k as int]);
                assert(w.skip(k as int).drop_first() =~= w.skip(k + 1));
                assert(enc_open_list(w.skip(k as int)) == enc_open(w[k as int]) + enc_open_list(
                    w.skip(k + 1),
                ));
                lemma_starts_with_cat(
                    bytes@.skip(before as int),
                    enc_open(w[k as int]),
                    enc_open_list(w.skip(k + 1)),
                );
                assert(wf_open(w[k as int]));
                lemma_open_ready(bytes@, before as int, w[k as int]);
            }
        }
        let item = match Open::read(bytes, offset) {
            Ok(v) => v,
            Err(e) => {
                return Err(e);
            },
        };
        proof {
            lemma_enc_open_list_push(items@, item);
            lemma_subrange_cat(bytes@, o0 as int, before as int, *offset as int);
            if hyp {
                lemma_starts_with_split(bytes@.skip(before as int), enc_open(w[k as int]));
                assert(bytes@.skip(before as int) =~= enc_open(item) + bytes@.skip(
                    *offset as int,
                ));
                lemma_open_det(item, bytes@.skip(*offset as int), w[k as int], bytes@.skip(before as int).skip(enc_open(w[k as int]).len() as int));
                assert(starts_with(bytes@.skip(*offset as int), enc_open_list(w.skip(k + 1))));
            }
            assert(forall|i: int|
                0 <= i < items@.push(item).len() ==> wf_open(#[trigger] items@.push(item)[i]));
        }
        items.push(item);
        k = k + 1;
    }
    Ok(items)
}

/// Reads `num_of_items` module provisions.
#[verifier::loop_isolation(false)]
pub fn read_provide_list(bytes: &[u8], offset: &mut usize, num_of_items: usize) -> (r: Result<
    Vec<Provide>,
    Error,
>)
    requires
        *old(offset) <= bytes@.len(),
    ensures
        *old(offset) <= *final(offset),
        (exists|s: Seq<Provide>|
            #![trigger enc_provide_list(s)]
            s.len() == num_of_items && wf_provide_list_all(s) && starts_with(
                bytes@.skip(*old(offset) as int),
                enc_provide_list(s),
            )) ==> r is Ok,
        r is Ok ==> {
            &&& *final(offset) <= bytes@.len()
            &&& r->Ok_0@.len() == num_of_items
            &&& wf_provide_list_all(r->Ok_0@)
            &&& enc_provide_list(r->Ok_0@) == bytes@.subrange(*old(offset) as int, *final(offset) as int)
        },
{
    let ghost o0 = *offset;
    let ghost hyp = exists|s: Seq<Provide>|
        #![trigger enc_provide_list(s)]
        s.len() == num_of_items && wf_provide_list_all(s) && starts_with(
            bytes@.skip(o0 as int),
            enc_provide_list(s),
        );
    let ghost w: Seq<Provide> = if hyp {
        choose|s: Seq<Provide>|
            #![trigger enc_provide_list(s)]
            s.len() == num_of_items && wf_provide_list_all(s) && starts_with(
                bytes@.skip(o0 as int),
                enc_provide_list(s),
            )
    } else {
        Seq::empty()
    };
    proof {
        if hyp {
            assert(w.skip(0) =~= w);
        }
        assert(enc_provide_list(Seq::<Provide>::empty()) =~= bytes@.subrange(o0 as int, o0 as int));
    }
    let mut items: Vec<Provide> = Vec::new();
    let mut k: usize = 0;
    while k < num_of_items
        invariant
            o0 <= *offset,
            *offset <= bytes@.len(),
            items@.len() == k,
            k <= num_of_items,
            wf_provide_list_all(items@),
            enc_provide_list(items@) == bytes@.subrange(o0 as int, *offset as int),
            hyp ==> starts_with(bytes@.skip(*offset as int), enc_provide_list(w.skip(k as int))),
        decreases num_of_items - k,
    {
        let ghost before = *offset;
        proof {
            if hyp {
                assert(w.skip(k as int).len() > 0);
                assert(w.skip(k as int)[0] == w[k as int]);
                assert(w.skip(k as int).drop_first() =~= w.skip(k + 1));
                assert(enc_provide_list(w.skip(k as int)) == enc_provide(w[k as int]) + enc_provide_list(
                    w.skip(k + 1),
                ));
                lemma_starts_with_cat(
                    bytes@.skip(before as int),
                    enc_provide(w[k as int]),
                    enc_provide_list(w.skip(k + 1)),
                );
                assert(wf_provide(w[k as int]));
                lemma_provide_ready(bytes@, before as int, w[k as int]);
            }
        }
        let item = match Provide::read(bytes, offset) {
            Ok(v) => v,
            Err(e) => {
                return Err(e);
            },
        };
        proof {
            lemma_enc_provide_list_push(items@, item);
            lemma_subrange_cat(bytes@, o0 as int, before as int, *offset as int);
            if hyp {
                lemma_starts_with_split(bytes@.skip(before as int), enc_provide(w[k as int]));
                assert(bytes@.skip(before as int) =~= enc_provide(item) + bytes@.skip(
                    *offset as int,
                ));
                lemma_provide_det(item, bytes@.skip(*offset as int), w[k as int], bytes@.skip(before as int).skip(enc_provide(w[k as int]).len() as int));
                assert(starts_with(bytes@.skip(*offset as int), enc_provide_list(w.skip(k + 1))));
            }
            assert(forall|i: int|
                0 <= i < items@.push(item).len() ==> wf_provide(#[trigger] items@.push(item)[i]));
        }
        items.push(item);
        k = k + 1;
    }
    Ok(items)
}

impl VerificationTypeInfo {
    /// Reads one verification type: a tag byte 0..=8, with a 16-bit operand
    /// for the Object and Uninitialized variants.
    pub fn read(bytes: &[u8], offset: &mut usize) -> (r: Result<VerificationTypeInfo, Error>)
        ensures
            *old(offset) <= *final(offset),
            r is Ok <==> *old(offset) < bytes@.len() && bytes@[*old(offset) as int] <= 8 && ((
            bytes@[*old(offset) as int] == 7 || bytes@[*old(offset) as int] == 8) ==> *old(offset)
                + 3 <= bytes@.len()),
            r is Ok ==> {
                &&& *final(offset) <= bytes@.len()
                &&& wf_verification_type(r->Ok_0)
                &&& enc_verification_type(r->Ok_0) == bytes@.subrange(
                    *old(offset) as int,
                    *final(offset) as int,
                )
            },
    {
        let ghost o0 = *offset;
        let tag = match read_u8(bytes, offset) {
            Ok(v) => v,
            Err(e) => {
                return Err(e);
            },
        };
        proof {
            assert(tag == bytes@[o0 as int]) by {
                assert(seq![tag][0] == bytes@.subrange(o0 as int, o0 + 1)[0]);
            }
        }
        if tag == 0 {
            Ok(VerificationTypeInfo::TopVariableInfo { tag })
        } else if tag == 1 {
            Ok(VerificationTypeInfo::IntegerVariableInfo { tag })
        } else if tag == 2 {
            Ok(VerificationTypeInfo::FloatVariableInfo { tag })
        } else if tag == 3 {
            Ok(VerificationTypeInfo::DoubleVariableInfo { tag })
        } else if tag == 4 {
            Ok(VerificationTypeInfo::LongVariableInfo { tag })
        } else if tag == 5 {
            Ok(VerificationTypeInfo::NullVariableInfo { tag })
        } else if tag == 6 {
            Ok(VerificationTypeInfo::UninitializedThisVariableInfo { tag })
        } else if tag == 7 {
            let cpool_index = match read_u16(bytes, offset) {
                Ok(v) => v,
                Err(e) => {
                    return Err(e);
                },
            };
            let r = VerificationTypeInfo::ObjectVariableInfo { tag, cpool_index };
            proof {
                assert(enc_verification_type(r) =~= bytes@.subrange(o0 as int, *offset as int));
            }
            Ok(r)
        } else if tag == 8 {
            let item_offset = match read_u16(bytes, offset) {
                Ok(v) => v,
                Err(e) => {
                    return Err(e);
                },
            };
            let r = VerificationTypeInfo::UninitializedVariableInfo { tag, offset: item_offset };
            proof {
                assert(enc_verification_type(r) =~= bytes@.subrange(o0 as int, *offset as int));
            }
            Ok(r)
        } else {
            reader_error("Verification type's tag must be 0..8 !", *offset)
        }
    }
}

impl StackMapFrame {
    /// Reads one stack-map frame: the frame-type byte, then the payload its
    /// range calls for.
    pub fn read(bytes: &[u8], offset: &mut usize) -> (r: Result<StackMapFrame, Error>)
        requires
            *old(offset) <= bytes@.len(),
        ensures
            *old(offset) <= *final(offset),
            (exists|v: StackMapFrame|
                #![trigger enc_stack_map_frame(v)]
                wf_stack_map_frame(v) && starts_with(
                    bytes@.skip(*old(offset) as int),
                    enc_stack_map_frame(v),
                )) ==> r is Ok,
            r is Ok ==> {
                &&& *final(offset) <= bytes@.len()
                &&& wf_stack_map_frame(r->Ok_0)
                &&& enc_stack_map_frame(r->Ok_0) == bytes@.subrange(
                    *old(offset) as int,
                    *final(offset) as int,
                )
            },
    {
        let ghost o0 = *offset;
        let ghost hyp = exists|v: StackMapFrame|
            #![trigger enc_stack_map_frame(v)]
            wf_stack_map_frame(v) && starts_with(bytes@.skip(o0 as int), enc_stack_map_frame(v));
        let ghost w: StackMapFrame = choose|v: StackMapFrame|
            #![trigger enc_stack_map_frame(v)]
            wf_stack_map_frame(v) && starts_with(bytes@.skip(o0 as int), enc_stack_map_frame(v));
        proof {
            if hyp {
                lemma_frame_ready(bytes@, o0 as int, w);
            }
        }
        let frame_type = match read_u8(bytes, offset) {
            Ok(v) => v,
            Err(e) => {
                return Err(e);
            },
        };
        proof {
            assert(frame_type == bytes@[o0 as int]) by {
                assert(seq![frame_type][0] == bytes@.subrange(o0 as int, o0 + 1)[0]);
            }
        }
        if frame_type <= 63 {
            let r = StackMapFrame::SameFrame { frame_type };
            proof {
                assert(enc_stack_map_frame(r) =~= bytes@.subrange(o0 as int, *offset as int));
            }
            Ok(r)
        } else if frame_type <= 127 {
            let stack = match read_verification_types(bytes, offset, 1) {
                Ok(v) => v,
                Err(e) => {
                    return Err(e);
                },
            };
            let r = StackMapFrame::SameLocals1StackItemFrame { frame_type, stack };
            proof {
                assert(enc_stack_map_frame(r) =~= bytes@.subrange(o0 as int, *offset as int));
            }
            Ok(r)
        } else if frame_type == 247 {
            let offset_delta = match read_u16(bytes, offset) {
                Ok(v) => v,
                Err(e) => {
                    return Err(e);
                },
            };
            let ghost o1 = *offset;
            let stack = match read_verification_types(bytes, offset, 1) {
                Ok(v) => v,
                Err(e) => {
                    return Err(e);
                },
            };
            let r = StackMapFrame::SameLocals1StackItemFrameExtended {
                frame_type,
                offset_delta,
                stack,
            };
            proof {
                lemma_subrange_cat(bytes@, o0 as int, o0 + 1, o1 as int);
                assert(enc_stack_map_frame(r) =~= bytes@.subrange(o0 as int, *offset as int));
            }
            Ok(r)
        } else if 248 <= frame_type && frame_type <= 250 {
            let offset_delta = match read_u16(bytes, offset) {
                Ok(v) => v,
                Err(e) => {
                    return Err(e);
                },
            };
            let r = StackMapFrame::ChopFrame { frame_type, offset_delta };
            proof {
                assert(enc_stack_map_frame(r) =~= bytes@.subrange(o0 as int, *offset as int));
            }
            Ok(r)
        } else if frame_type == 251 {
            let offset_delta = match read_u16(bytes, offset) {
                Ok(v) => v,
                Err(e) => {
                    return Err(e);
                },
            };
            let r = StackMapFrame::SameFrameExtended { frame_type, offset_delta };
            proof {
                assert(enc_stack_map_frame(r) =~= bytes@.subrange(o0 as int, *offset as int));
            }
            Ok(r)
        } else if 252 <= frame_type && frame_type <= 254 {
            let offset_delta = match read_u16(bytes, offset) {
                Ok(v) => v,
                Err(e) => {
                    return Err(e);
                },
            };
            let ghost o1 = *offset;
            let locals = match read_verification_types(bytes, offset, (frame_type - 251) as usize) {
                Ok(v) => v,
                Err(e) => {
                    return Err(e);
                },
            };
            let r = StackMapFrame::AppendFrame { frame_type, offset_delta, locals };
            proof {
                lemma_subrange_cat(bytes@, o0 as int, o0 + 1, o1 as int);
                assert(enc_stack_map_frame(r) =~= bytes@.subrange(o0 as int, *offset as int));
            }
            Ok(r)
        } else if frame_type == 255 {
            let offset_delta = match read_u16(bytes, offset) {
                Ok(v) => v,
                Err(e) => {
                    return Err(e);
                },
            };
            let number_of_locals = match read_u16(bytes, offset) {
                Ok(v) => v,
                Err(e) => {
                    return Err(e);
                },
            };
            let ghost o2 = *offset;
            proof {
                if hyp {
                    match w {
                        StackMapFrame::FullFrame {
                            frame_type: wft,
                            offset_delta: wod,
                            number_of_locals: wnl,
                            locals: wlocals,
                            number_of_stack_items: wns,
                            stack: wstack,
                        } => {
                            lemma_be16_at(bytes@, o0 + 3, number_of_locals);
                            assert(number_of_locals == wnl);
                            assert(o2 == o0 + 5);
                            lemma_starts_with_cat(
                                bytes@.skip(o2 as int),
                                enc_verification_list(wlocals@),
                                be16(wns) + enc_verification_list(wstack@),
                            );
                        },
                        _ => {
                            assert(false);
                        },
                    }
                }
            }
            let locals = match read_verification_types(bytes, offset, number_of_locals as usize) {
                Ok(v) => v,
                Err(e) => {
                    return Err(e);
                },
            };
            let ghost o3 = *offset;
            proof {
                if hyp {
                    match w {
                        StackMapFrame::FullFrame {
                            frame_type: wft,
                            offset_delta: wod,
                            number_of_locals: wnl,
                            locals: wlocals,
                            number_of_stack_items: wns,
                            stack: wstack,
                        } => {
                            lemma_starts_with_cat(
                                bytes@.skip(o2 as int),
                                enc_verification_list(wlocals@),
                                be16(wns) + enc_verification_list(wstack@),
                            );
                            lemma_starts_with_split(
                                bytes@.skip(o2 as int),
                                enc_verification_list(wlocals@),
                            );
                            assert(bytes@.skip(o2 as int) =~= enc_verification_list(locals@)
                                + bytes@.skip(o3 as int));
                            lemma_vt_list_det(
                                locals@,
                                bytes@.skip(o3 as int),
                                wlocals@,
                                bytes@.skip(o2 as int).skip(
                                    enc_verification_list(wlocals@).len() as int,
                                ),
                            );
                            lemma_starts_with_cat(
                                bytes@.skip(o3 as int),
                                be16(wns),
                                enc_verification_list(wstack@),
                            );
                            assert(bytes@.subrange(o3 as int, o3 + 2) =~= be16(wns));
                        },
                        _ => {
                            assert(false);
                        },
                    }
                }
            }
            let number_of_stack_items = match read_u16(bytes, offset) {
                Ok(v) => v,
                Err(e) => {
                    return Err(e);
                },
            };
            let ghost o4 = *offset;
            proof {
                if hyp {
                    match w {
                        StackMapFrame::FullFrame {
                            frame_type: wft,
                            offset_delta: wod,
                            number_of_locals: wnl,
                            locals: wlocals,
                            number_of_stack_items: wns,
                            stack: wstack,
                        } => {
                            lemma_be16_at(bytes@, o3 as int, number_of_stack_items);
                            lemma_be16_at(bytes@, o3 as int, wns);
                            assert(number_of_stack_items == wns);
                            assert(bytes@.skip(o3 as int).skip(2) =~= bytes@.skip(o4 as int));
                        },
                        _ => {
                            assert(false);
                        },
                    }
                }
            }
            let stack = match read_verification_types(bytes, offset, number_of_stack_items as usize)
                {
                Ok(v) => v,
                Err(e) => {
                    return Err(e);
                },
            };
            let r = StackMapFrame::FullFrame {
                frame_type,
                offset_delta,
                number_of_locals,
                locals,
                number_of_stack_items,
                stack,
            };
            proof {
                lemma_subrange_cat(bytes@, o0 as int, o0 + 1, o0 + 3);
                lemma_subrange_cat(bytes@, o0 as int, o0 + 3, o2 as int);
                lemma_subrange_cat(bytes@, o0 as int, o2 as int, o3 as int);
                lemma_subrange_cat(bytes@, o0 as int, o3 as int, o4 as int);
                lemma_subrange_cat(bytes@, o0 as int, o4 as int, *offset as int);
                assert(enc_stack_map_frame(r) =~= bytes@.subrange(o0 as int, *offset as int));
            }
            Ok(r)
        } else {
            reader_error("invalid stack frame type!", *offset)
        }
    }
}

/// Reads `num_of_items` verification types.
#[verifier::loop_isolation(false)]
pub fn read_verification_types(bytes: &[u8], offset: &mut usize, num_of_items: usize) -> (r:
    Result<Vec<VerificationTypeInfo>, Error>)
    requires
        *old(offset) <= bytes@.len(),
    ensures
        *old(offset) <= *final(offset),
        (exists|s: Seq<VerificationTypeInfo>|
            #![trigger enc_verification_list(s)]
            s.len() == num_of_items && wf_verification_list(s) && starts_with(
                bytes@.skip(*old(offset) as int),
                enc_verification_list(s),
            )) ==> r is Ok,
        r is Ok ==> {
            &&& *final(offset) <= bytes@.len()
            &&& r->Ok_0@.len() == num_of_items
            &&& wf_verification_list(r->Ok_0@)
            &&& enc_verification_list(r->Ok_0@) == bytes@.subrange(
                *old(offset) as int,
                *final(offset) as int,
            )
        },
{
    let ghost o0 = *offset;
    let ghost hyp = exists|s: Seq<VerificationTypeInfo>|
        #![trigger enc_verification_list(s)]
        s.len() == num_of_items && wf_verification_list(s) && starts_with(
            bytes@.skip(o0 as int),
            enc_verification_list(s),
        );
    let ghost w: Seq<VerificationTypeInfo> = if hyp {
        choose|s: Seq<VerificationTypeInfo>|
            #![trigger enc_verification_list(s)]
            s.len() == num_of_items && wf_verification_list(s) && starts_with(
                bytes@.skip(o0 as int),
                enc_verification_list(s),
            )
    } else {
        Seq::empty()
    };
    proof {
        if hyp {
            assert(w.skip(0) =~= w);
        }
        assert(enc_verification_list(Seq::<VerificationTypeInfo>::empty()) =~= bytes@.subrange(
            o0 as int,
            o0 as int,
        ));
    }
    let mut items: Vec<VerificationTypeInfo> = Vec::new();
    let mut k: usize = 0;
    while k < num_of_items
        invariant
            o0 <= *offset,
            *offset <= bytes@.len(),
            items@.len() == k,
            k <= num_of_items,
            wf_verification_list(items@),
            enc_verification_list(items@) == bytes@.subrange(o0 as int, *offset as int),
            hyp ==> starts_with(bytes@.skip(*offset as int), enc_verification_list(w.skip(k as int))),
        decreases num_of_items - k,
    {
        let ghost before = *offset;
        proof {
            if hyp {
                assert(w.skip(k as int).len() > 0);
                assert(w.skip(k as int)[0] == w[k as int]);
                assert(w.skip(k as int).drop_first() =~= w.skip(k + 1));
                assert(enc_verification_list(w.skip(k as int)) == enc_verification_type(w[k as int]) + enc_verification_list(
                    w.skip(k + 1),
                ));
                lemma_starts_with_cat(
                    bytes@.skip(before as int),
                    enc_verification_type(w[k as int]),
                    enc_verification_list(w.skip(k + 1)),
                );
                assert(wf_verification_type(w[k as int]));
                lemma_vt_ready(bytes@, before as int, w[k as int]);
            }
        }
        let item = match VerificationTypeInfo::read(bytes, offset) {
            Ok(v) => v,
            Err(e) => {
                return Err(e);
            },
        };
        proof {
            lemma_enc_verification_list_push(items@, item);
            lemma_subrange_cat(bytes@, o0 as int, before as int, *offset as int);
            if hyp {
                lemma_starts_with_split(bytes@.skip(before as int), enc_verification_type(w[k as int]));
                assert(bytes@.skip(before as int) =~= enc_verification_type(item) + bytes@.skip(
                    *offset as int,
                ));
                lemma_vt_det(item, bytes@.skip(*offset as int), w[k as int], bytes@.skip(before as int).skip(enc_verification_type(w[k as int]).len() as int));
                assert(starts_with(bytes@.skip(*offset as int), enc_verification_list(w.skip(k + 1))));
            }
            assert(forall|i: int|
                0 <= i < items@.push(item).len() ==> wf_verification_type(
                    #[trigger] items@.push(item)[i],
                ));
        }
        items.push(item);
        k = k + 1;
    }
    Ok(items)
}

/// Reads `num_of_items` stack-map frames.
#[verifier::loop_isolation(false)]
#[verifier::rlimit(100)]
#[verifier::spinoff_prover]
pub fn read_frames(bytes: &[u8], offset: &mut usize, num_of_items: usize) -> (r: Result<
    Vec<StackMapFrame>,
    Error,
>)
    requires
        *old(offset) <= bytes@.len(),
    ensures
        *old(offset) <= *final(offset),
        (exists|s: Seq<StackMapFrame>|
            #![trigger enc_frame_list(s)]
            s.len() == num_of_items && wf_frame_list(s) && starts_with(
                bytes@.skip(*old(offset) as int),
                enc_frame_list(s),
            )) ==> r is Ok,
        r is Ok ==> {
            &&& *final(offset) <= bytes@.len()
            &&& r->Ok_0@.len() == num_of_items
            &&& wf_frame_list(r->Ok_0@)
            &&& enc_frame_list(r->Ok_0@) == bytes@.subrange(*old(offset) as int, *final(offset) as int)
        },
{
    let ghost o0 = *offset;
    let ghost hyp = exists|s: Seq<StackMapFrame>|
        #![trigger enc_frame_list(s)]
        s.len() == num_of_items && wf_frame_list(s) && starts_with(
            bytes@.skip(o0 as int),
            enc_frame_list(s),
        );
    let ghost w: Seq<StackMapFrame> = if hyp {
        choose|s: Seq<StackMapFrame>|
            #![trigger enc_frame_list(s)]
            s.len() == num_of_items && wf_frame_list(s) && starts_with(
                bytes@.skip(o0 as int),
                enc_frame_list(s),
            )
    } else {
        Seq::empty()
    };
    proof {
        if hyp {
            assert(w.skip(0) =~= w);
        }
        assert(enc_frame_list(Seq::<StackMapFrame>::empty()) =~= bytes@.subrange(
            o0 as int,
            o0 as int,
        ));
    }
    let mut items: Vec<StackMapFrame> = Vec::new();
    let mut k: usize = 0;
    while k < num_of_items
        invariant
            o0 <= *offset,
            *offset <= bytes@.len(),
            items@.len() == k,
            k <= num_of_items,
            wf_frame_list(items@),
            enc_frame_list(items@) == bytes@.subrange(o0 as int, *offset as int),
            hyp ==> starts_with(bytes@.skip(*offset as int), enc_frame_list(w.skip(k as int))),
        decreases num_of_items - k,
    {
        let ghost before = *offset;
        proof {
            if hyp {
                assert(w.skip(k as int).len() > 0);
                assert(w.skip(k as int)[0] == w[k as int]);
                assert(w.skip(k as int).drop_first() =~= w.skip(k + 1));
                assert(enc_frame_list(w.skip(k as int)) == enc_stack_map_frame(w[k as int]) + enc_frame_list(
                    w.skip(k + 1),
                ));
                lemma_starts_with_cat(
                    bytes@.skip(before as int),
                    enc_stack_map_frame(w[k as int]),
                    enc_frame_list(w.skip(k + 1)),
                );
                assert(wf_stack_map_frame(w[k as int]));
            }
        }
        let item = match StackMapFrame::read(bytes, offset) {
            Ok(v) => v,
            Err(e) => {
                return Err(e);
            },
        };
        proof {
            lemma_enc_frame_list_push(items@, item);
            lemma_subrange_cat(bytes@, o0 as int, before as int, *offset as int);
            if hyp {
                lemma_starts_with_split(bytes@.skip(before as int), enc_stack_map_frame(w[k as int]));
                assert(bytes@.skip(before as int) =~= enc_stack_map_frame(item) + bytes@.skip(
                    *offset as int,
                ));
                lemma_frame_det(item, bytes@.skip(*offset as int), w[k as int], bytes@.skip(before as int).skip(enc_stack_map_frame(w[k as int]).len() as int));
                assert(starts_with(bytes@.skip(*offset as int), enc_frame_list(w.skip(k + 1))));
            }
            assert(forall|i: int|
                0 <= i < items@.push(item).len() ==> wf_stack_map_frame(
                    #[trigger] items@.push(item)[i],
                ));
        }
        items.push(item);
        k = k + 1;
    }
    Ok(items)
}


/// Whether `name` holds exactly the text of `lit`.
fn name_is(name: &String, lit: &str) -> (r: bool)
    ensures
        r == (name@ == lit@),
{
    let l = lit.to_owned();
    name.eq(&l)
}

impl Attribute {
    /// Reads the payload of one Code-shaped attribute, after its name
    /// and declared length have been consumed and its name resolved.
    #[verifier::rlimit(100)]
    #[verifier::spinoff_prover]
    fn read_code_attribute(
        bytes: &[u8],
        offset: &mut usize,
        constant_pool: &Vec<CpInfo>,
        attribute_name_index: u16,
        attribute_length: u32,
        Ghost(o0): Ghost<int>,
        Ghost(hyp): Ghost<bool>,
        Ghost(w): Ghost<Attribute>,
    ) -> (r: Result<Attribute, Error>)
        requires
            *old(offset) <= bytes@.len(),
            *old(offset) == o0 + 6,
            o0 >= 0,
            cp_text_at(constant_pool@, attribute_name_index) == Some("Code"@),
            bytes@.subrange(o0, o0 + 2) == be16(attribute_name_index),
            bytes@.subrange(o0 + 2, o0 + 6) == be32(attribute_length),
            hyp ==> {
                &&& wf_attribute(constant_pool@, w)
                &&& starts_with(bytes@.skip(o0), enc_attribute(w))
                &&& w is Code
                &&& spec_attribute_name_index(w) == attribute_name_index
                &&& spec_attribute_length(w) == attribute_length
            },
        ensures
            *old(offset) <= *final(offset),
            hyp ==> r is Ok,
            r is Ok ==> {
                &&& *final(offset) <= bytes@.len()
                &&& wf_attribute(constant_pool@, r->Ok_0)
                &&& enc_attribute(r->Ok_0) == bytes@.subrange(o0, *final(offset) as int)
            },
        decreases bytes@.len() - *offset, 0int,
    {
        let ghost o2 = *offset;
        proof {
            lemma_subrange_cat(bytes@, o0, o0 + 2, o0 + 6);
            if hyp {
                assert(w == Attribute::Code(w->Code_0));
                lemma_attribute_ready_code(bytes@, o0, w->Code_0);
            }
        }
            proof {
                if hyp {
                    assert(w is Code);
                }
            }
            let max_stack = match read_u16(bytes, offset) {
                Ok(v) => v,
                Err(e) => {
                    return Err(e);
                },
            };
            let ghost o3 = *offset;
            let max_locals = match read_u16(bytes, offset) {
                Ok(v) => v,
                Err(e) => {
                    return Err(e);
                },
            };
            let ghost o4 = *offset;
            let code_length = match read_u32(bytes, offset) {
                Ok(v) => v,
                Err(e) => {
                    return Err(e);
                },
            };
            let ghost o5 = *offset;
            proof {
                if hyp {
                    assert(be32(code_length) == be32(w->Code_0.code_length));
                    lemma_be32_inj(code_length, w->Code_0.code_length);
                }
            }
            let code = match read_u8_vec(bytes, offset, code_length as usize) {
                Ok(v) => v,
                Err(e) => {
                    return Err(e);
                },
            };
            let ghost o6 = *offset;
            let exception_table_length = match read_u16(bytes, offset) {
                Ok(v) => v,
                Err(e) => {
                    return Err(e);
                },
            };
            let ghost o7 = *offset;
            proof {
                if hyp {
                    assert(o6 == o0 + 14 + w->Code_0.code@.len());
                    assert(be16(exception_table_length) == be16(
                        w->Code_0.exception_table_length,
                    ));
                    lemma_be16_inj(exception_table_length, w->Code_0.exception_table_length);
                }
            }
            let exception_table = match read_exception_tables(
                bytes,
                offset,
                exception_table_length as usize,
            ) {
                Ok(v) => v,
                Err(e) => {
                    return Err(e);
                },
            };
            let ghost o8 = *offset;
            proof {
                if hyp {
                    lemma_enc_exception_list_len(exception_table@);
                    assert(o8 == o0 + 16 + w->Code_0.code@.len() + 8
                        * w->Code_0.exception_table@.len());
                }
            }
            let attributes_count = match read_u16(bytes, offset) {
                Ok(v) => v,
                Err(e) => {
                    return Err(e);
                },
            };
            let ghost o9 = *offset;
            proof {
                if hyp {
                    assert(be16(attributes_count) == be16(w->Code_0.attributes_count));
                    lemma_be16_inj(attributes_count, w->Code_0.attributes_count);
                }
            }
            let attributes = match read_attributes(
                bytes,
                offset,
                constant_pool,
                attributes_count as usize,
            ) {
                Ok(v) => v,
                Err(e) => {
                    return Err(e);
                },
            };
            let a = Attribute::Code(
                CodeAttributeInfo {
                    attribute_name_index,
                    attribute_length,
                    max_stack,
                    max_locals,
                    code_length,
                    code,
                    exception_table_length,
                    exception_table,
                    attributes_count,
                    attributes,
                },
            );
            proof {
                lemma_subrange_cat(bytes@, o0 as int, o2 as int, o3 as int);
                lemma_subrange_cat(bytes@, o0 as int, o3 as int, o4 as int);
                lemma_subrange_cat(bytes@, o0 as int, o4 as int, o5 as int);
                lemma_subrange_cat(bytes@, o0 as int, o5 as int, o6 as int);
                lemma_subrange_cat(bytes@, o0 as int, o6 as int, o7 as int);
                lemma_subrange_cat(bytes@, o0 as int, o7 as int, o8 as int);
                lemma_subrange_cat(bytes@, o0 as int, o8 as int, o9 as int);
                lemma_subrange_cat(bytes@, o0 as int, o9 as int, *offset as int);
                assert(enc_attribute(a) =~= bytes@.subrange(o0 as int, *offset as int));
            }
            Ok(a)
}

    /// Reads the payload of one Module-shaped attribute, after its name
    /// and declared length have been consumed and its name resolved.
    #[verifier::rlimit(100)]
    #[verifier::spinoff_prover]
    fn read_module_attribute(
        bytes: &[u8],
        offset: &mut usize,
        constant_pool: &Vec<CpInfo>,
        attribute_name_index: u16,
        attribute_length: u32,
        Ghost(o0): Ghost<int>,
        Ghost(hyp): Ghost<bool>,
        Ghost(w): Ghost<Attribute>,
    ) -> (r: Result<Attribute, Error>)
        requires
            *old(offset) <= bytes@.len(),
            *old(offset) == o0 + 6,
            o0 >= 0,
            cp_text_at(constant_pool@, attribute_name_index) == Some("Module"@),
            bytes@.subrange(o0, o0 + 2) == be16(attribute_name_index),
            bytes@.subrange(o0 + 2, o0 + 6) == be32(attribute_length),
            hyp ==> {
                &&& wf_attribute(constant_pool@, w)
                &&& starts_with(bytes@.skip(o0), enc_attribute(w))
                &&& w is Module
                &&& spec_attribute_name_index(w) == attribute_name_index
                &&& spec_attribute_length(w) == attribute_length
            },
        ensures
            *old(offset) <= *final(offset),
            hyp ==> r is Ok,
            r is Ok ==> {
                &&& *final(offset) <= bytes@.len()
                &&& wf_attribute(constant_pool@, r->Ok_0)
                &&& enc_attribute(r->Ok_0) == bytes@.subrange(o0, *final(offset) as int)
            },
    {
        let ghost o2 = *offset;
        proof {
            lemma_subrange_cat(bytes@, o0, o0 + 2, o0 + 6);
            if hyp {
                assert(w == Attribute::Module(w->Module_0));
                lemma_attribute_ready_module(bytes@, o0, w->Module_0);
            }
        }
            proof {
                if hyp {
                    assert(w is Module);
                }
            }
            let module_name_index = match read_u16(bytes, offset) {
                Ok(v) => v,
                Err(e) => {
                    return Err(e);
                },
            };
            let ghost o3 = *offset;
            let module_flags = match read_u16(bytes, offset) {
                Ok(v) => v,
                Err(e) => {
                    return Err(e);
                },
            };
            let ghost o4 = *offset;
            let module_version_index = match read_u16(bytes, offset) {
                Ok(v) => v,
                Err(e) => {
                    return Err(e);
                },
            };
            let ghost o5 = *offset;
            let requires_count = match read_u16(bytes, offset) {
                Ok(v) => v,
                Err(e) => {
                    return Err(e);
                },
            };
            let ghost o6 = *offset;
            proof {
                if hyp {
                    assert(be16(requires_count) == be16(w->Module_0.requires_count));
                    lemma_be16_inj(requires_count, w->Module_0.requires_count);
                }
            }
            let require_items = match read_require_list(bytes, offset, requires_count as usize) {
                Ok(v) => v,
                Err(e) => {
                    return Err(e);
                },
            };
            let ghost o7 = *offset;
            proof {
                if hyp {
                    lemma_enc_require_list_len(require_items@);
                    assert(o7 == o0 + 14 + 6 * w->Module_0.requires@.len());
                }
            }
            let exports_count = match read_u16(bytes, offset) {
                Ok(v) => v,
                Err(e) => {
                    return Err(e);
                },
            };
            let ghost o8 = *offset;
            proof {
                if hyp {
                    assert(be16(exports_count) == be16(w->Module_0.exports_count));
                    lemma_be16_inj(exports_count, w->Module_0.exports_count);
                    lemma_starts_with_cat(
                        bytes@.skip(o8 as int),
                        enc_export_list(w->Module_0.exports@),
                        be16(w->Module_0.opens_count) + (enc_open_list(w->Module_0.opens@) + (be16(
                            w->Module_0.uses_count,
                        ) + (enc_u16_list(w->Module_0.uses_index@) + (be16(
                            w->Module_0.provides_count,
                        ) + enc_provide_list(w->Module_0.provides@))))),
                    );
                }
            }
            let exports = match read_export_list(bytes, offset, exports_count as usize) {
                Ok(v) => v,
                Err(e) => {
                    return Err(e);
                },
            };
            let ghost o9 = *offset;
            proof {
                if hyp {
                    lemma_starts_with_split(
                        bytes@.skip(o8 as int),
                        enc_export_list(w->Module_0.exports@),
                    );
                    assert(bytes@.skip(o8 as int) =~= enc_export_list(exports@) + bytes@.skip(
                        o9 as int,
                    ));
                    lemma_export_list_det(
                        exports@,
                        bytes@.skip(o9 as int),
                        w->Module_0.exports@,
                        bytes@.skip(o8 as int).skip(
                            enc_export_list(w->Module_0.exports@).len() as int,
                        ),
                    );
                    lemma_starts_with_cat(
                        bytes@.skip(o9 as int),
                        be16(w->Module_0.opens_count),
                        enc_open_list(w->Module_0.opens@) + (be16(w->Module_0.uses_count) + (
                        enc_u16_list(w->Module_0.uses_index@) + (be16(w->Module_0.provides_count)
                            + enc_provide_list(w->Module_0.provides@)))),
                    );
                    assert(bytes@.subrange(o9 as int, o9 + 2) =~= be16(w->Module_0.opens_count));
                }
            }
            let opens_count = match read_u16(bytes, offset) {
                Ok(v) => v,
                Err(e) => {
                    return Err(e);
                },
            };
            let ghost o10 = *offset;
            proof {
                if hyp {
                    assert(be16(opens_count) == be16(w->Module_0.opens_count));
                    lemma_be16_inj(opens_count, w->Module_0.opens_count);
                    assert(bytes@.skip(o9 as int).skip(2) =~= bytes@.skip(o10 as int));
                    lemma_starts_with_cat(
                        bytes@.skip(o10 as int),
                        enc_open_list(w->Module_0.opens@),
                        be16(w->Module_0.uses_count) + (enc_u16_list(w->Module_0.uses_index@) + (
                        be16(w->Module_0.provides_count) + enc_provide_list(
                            w->Module_0.provides@,
                        ))),
                    );
                }
            }
            let opens = match read_open_list(bytes, offset, opens_count as usize) {
                Ok(v) => v,
                Err(e) => {
                    return Err(e);
                },
            };
            let ghost o11 = *offset;
            proof {
                if hyp {
                    lemma_starts_with_split(
                        bytes@.skip(o10 as int),
                        enc_open_list(w->Module_0.opens@),
                    );
                    assert(bytes@.skip(o10 as int) =~= enc_open_list(opens@) + bytes@.skip(
                        o11 as int,
                    ));
                    lemma_open_list_det(
                        opens@,
                        bytes@.skip(o11 as int),
                        w->Module_0.opens@,
                        bytes@.skip(o10 as int).skip(
                            enc_open_list(w->Module_0.opens@).len() as int,
                        ),
                    );
                    lemma_starts_with_cat(
                        bytes@.skip(o11 as int),
                        be16(w->Module_0.uses_count),
                        enc_u16_list(w->Module_0.uses_index@) + (be16(w->Module_0.provides_count)
                            + enc_provide_list(w->Module_0.provides@)),
                    );
                    assert(bytes@.subrange(o11 as int, o11 + 2) =~= be16(w->Module_0.uses_count));
                }
            }
            let uses_count = match read_u16(bytes, offset) {
                Ok(v) => v,
                Err(e) => {
                    return Err(e);
                },
            };
            let ghost o12 = *offset;
            proof {
                if hyp {
                    assert(be16(uses_count) == be16(w->Module_0.uses_count));
                    lemma_be16_inj(uses_count, w->Module_0.uses_count);
                    assert(bytes@.skip(o11 as int).skip(2) =~= bytes@.skip(o12 as int));
                    lemma_starts_with_cat(
                        bytes@.skip(o12 as int),
                        enc_u16_list(w->Module_0.uses_index@),
                        be16(w->Module_0.provides_count) + enc_provide_list(w->Module_0.provides@),
                    );
                    lemma_enc_u16_list_len(w->Module_0.uses_index@);
                }
            }
            let uses_index = match read_u16s(bytes, offset, uses_count as usize) {
                Ok(v) => v,
                Err(e) => {
                    return Err(e);
                },
            };
            let ghost o13 = *offset;
            proof {
                if hyp {
                    lemma_enc_u16_list_len(uses_index@);
                    assert(uses_index@.len() == w->Module_0.uses_index@.len());
                    assert(o13 == o12 + 2 * w->Module_0.uses_index@.len());
                    assert(bytes@.skip(o12 as int).skip(
                        enc_u16_list(w->Module_0.uses_index@).len() as int,
                    ) =~= bytes@.skip(o13 as int));
                    lemma_starts_with_cat(
                        bytes@.skip(o13 as int),
                        be16(w->Module_0.provides_count),
                        enc_provide_list(w->Module_0.provides@),
                    );
                    assert(bytes@.subrange(o13 as int, o13 + 2) =~= be16(
                        w->Module_0.provides_count,
                    ));
                }
            }
            let provides_count = match read_u16(bytes, offset) {
                Ok(v) => v,
                Err(e) => {
                    return Err(e);
                },
            };
            let ghost o14 = *offset;
            proof {
                if hyp {
                    assert(be16(provides_count) == be16(w->Module_0.provides_count));
                    lemma_be16_inj(provides_count, w->Module_0.provides_count);
                    assert(bytes@.skip(o13 as int).skip(2) =~= bytes@.skip(o14 as int));
                }
            }
            let provides = match read_provide_list(bytes, offset, provides_count as usize) {
                Ok(v) => v,
                Err(e) => {
                    return Err(e);
                },
            };
            let a = Attribute::Module(
                ModuleAttribute {
                    attribute_name_index,
                    attribute_length,
                    module_name_index,
                    module_flags,
                    module_version_index,
                    requires_count,
                    requires: require_items,
                    exports_count,
                    exports,
                    opens_count,
                    opens,
                    uses_count,
                    uses_index,
                    provides_count,
                    provides,
                },
            );
            proof {
                lemma_subrange_cat(bytes@, o0 as int, o2 as int, o3 as int);
                lemma_subrange_cat(bytes@, o0 as int, o3 as int, o4 as int);
                lemma_subrange_cat(bytes@, o0 as int, o4 as int, o5 as int);
                lemma_subrange_cat(bytes@, o0 as int, o5 as int, o6 as int);
                lemma_subrange_cat(bytes@, o0 as int, o6 as int, o7 as int);
                lemma_subrange_cat(bytes@, o0 as int, o7 as int, o8 as int);
                lemma_subrange_cat(bytes@, o0 as int, o8 as int, o9 as int);
                lemma_subrange_cat(bytes@, o0 as int, o9 as int, o10 as int);
                lemma_subrange_cat(bytes@, o0 as int, o10 as int, o11 as int);
                lemma_subrange_cat(bytes@, o0 as int, o11 as int, o12 as int);
                lemma_subrange_cat(bytes@, o0 as int, o12 as int, o13 as int);
                lemma_subrange_cat(bytes@, o0 as int, o13 as int, o14 as int);
                lemma_subrange_cat(bytes@, o0 as int, o14 as int, *offset as int);
                assert(enc_attribute(a) =~= bytes@.subrange(o0 as int, *offset as int));
            }
            Ok(a)
}

    /// Reads one attribute: its name index and declared length, then — after
    /// resolving the name through the already-decoded pool — the payload of
    /// the shape that name calls for. Unrecognized names keep their payload
    /// as an opaque byte run of exactly the declared length.
    #[verifier::rlimit(100)]
    #[verifier::spinoff_prover]
    pub fn read(bytes: &[u8], offset: &mut usize, constant_pool: &Vec<CpInfo>) -> (r: Result<
        Attribute,
        Error,
    >)
        requires
            *old(offset) <= bytes@.len(),
        ensures
            *old(offset) <= *final(offset),
            (exists|v: Attribute|
                #![trigger enc_attribute(v)]
                wf_attribute(constant_pool@, v) && starts_with(
                    bytes@.skip(*old(offset) as int),
                    enc_attribute(v),
                )) ==> r is Ok,
            r is Ok ==> {
                &&& *final(offset) <= bytes@.len()
                &&& wf_attribute(constant_pool@, r->Ok_0)
                &&& enc_attribute(r->Ok_0) == bytes@.subrange(
                    *old(offset) as int,
                    *final(offset) as int,
                )
            },
        decreases bytes@.len() - *offset, 0int,
    {
        let ghost o0 = *offset;
        let ghost hyp = exists|v: Attribute|
            #![trigger enc_attribute(v)]
            wf_attribute(constant_pool@, v) && starts_with(
                bytes@.skip(o0 as int),
                enc_attribute(v),
            );
        let ghost w: Attribute = choose|v: Attribute|
            #![trigger enc_attribute(v)]
            wf_attribute(constant_pool@, v) && starts_with(
                bytes@.skip(o0 as int),
                enc_attribute(v),
            );
        proof {
            if hyp {
                lemma_attribute_ready(constant_pool@, bytes@, o0 as int, w);
            }
        }
        let attribute_name_index = match read_u16(bytes, offset) {
            Ok(v) => v,
            Err(e) => {
                return Err(e);
            },
        };
        let ghost o1 = *offset;
        let attribute_length = match read_u32(bytes, offset) {
            Ok(v) => v,
            Err(e) => {
                return Err(e);
            },
        };
        let ghost o2 = *offset;
        proof {
            if hyp {
                lemma_be16_inj(attribute_name_index, spec_attribute_name_index(w));
                lemma_be32_inj(attribute_length, spec_attribute_length(w));
                assert(cp_text_at(constant_pool@, attribute_name_index) is Some);
            }
        }
        let attribute_name = match Utf8CpAccessor::from(
            constant_pool,
            attribute_name_index,
        ).bytes_as_string() {
            Ok(s) => s,
            Err(e) => {
                return Err(Error { message: e.message });
            },
        };
        proof {
            assert(cp_text_at(constant_pool@, attribute_name_index) == Some(attribute_name@));
            lemma_subrange_cat(bytes@, o0 as int, o1 as int, o2 as int);
            if hyp {
                assert(attribute_name@ == cp_text_at(
                    constant_pool@,
                    spec_attribute_name_index(w),
                )->Some_0);
                lemma_attribute_shape_of_name(constant_pool@, w, attribute_name@);
            }
        }
        if name_is(&attribute_name, "ConstantValue") {
            proof {
                if hyp {
                    assert(w is ConstantValue);
                }
            }
            let constantvalue_index = match read_u16(bytes, offset) {
                Ok(v) => v,
                Err(e) => {
                    return Err(e);
                },
            };
            let a = Attribute::ConstantValue(
                ConstantValueAttribute { attribute_name_index, attribute_length, constantvalue_index },
            );
            proof {
                lemma_subrange_cat(bytes@, o0 as int, o2 as int, *offset as int);
                assert(enc_attribute(a) =~= bytes@.subrange(o0 as int, *offset as int));
            }
            Ok(a)
        } else if name_is(&attribute_name, "Code") {
            Attribute::read_code_attribute(
                bytes,
                offset,
                constant_pool,
                attribute_name_index,
                attribute_length,
                Ghost(o0 as int),
                Ghost(hyp),
                Ghost(w),
            )
        } else if name_is(&attribute_name, "StackMapTable") {
            proof {
                if hyp {
                    assert(w is StackMapTable);
                }
            }
            let number_of_entries = match read_u16(bytes, offset) {
                Ok(v) => v,
                Err(e) => {
                    return Err(e);
                },
            };
            let ghost o3 = *offset;
            proof {
                if hyp {
                    assert(be16(number_of_entries) == be16(w->StackMapTable_0.number_of_entries));
                    lemma_be16_inj(number_of_entries, w->StackMapTable_0.number_of_entries);
                }
            }
            let entries = match read_frames(bytes, offset, number_of_entries as usize) {
                Ok(v) => v,
                Err(e) => {
                    return Err(e);
                },
            };
            let a = Attribute::StackMapTable(
                StackMapTableAttribute {
                    attribute_name_index,
                    attribute_length,
                    number_of_entries,
                    entries,
                },
            );
            proof {
                lemma_subrange_cat(bytes@, o0 as int, o2 as int, o3 as int);
                lemma_subrange_cat(bytes@, o0 as int, o3 as int, *offset as int);
                assert(enc_attribute(a) =~= bytes@.subrange(o0 as int, *offset as int));
            }
            Ok(a)
        } else if name_is(&attribute_name, "BootstrapMethods") {
            proof {
                if hyp {
                    assert(w is BootstrapMethods);
                }
            }
            let num_bootstrap_methods = match read_u16(bytes, offset) {
                Ok(v) => v,
                Err(e) => {
                    return Err(e);
                },
            };
            let ghost o3 = *offset;
            proof {
                if hyp {
                    assert(be16(num_bootstrap_methods) == be16(
                        w->BootstrapMethods_0.num_bootstrap_methods,
                    ));
                    lemma_be16_inj(
                        num_bootstrap_methods,
                        w->BootstrapMethods_0.num_bootstrap_methods,
                    );
                }
            }
            let bootstrap_methods = match read_bootstrap_methods(
                bytes,
                offset,
                num_bootstrap_methods as usize,
            ) {
                Ok(v) => v,
                Err(e) => {
                    return Err(e);
                },
            };
            let a = Attribute::BootstrapMethods(
                BootstrapMethodsAttribute {
                    attribute_name_index,
                    attribute_length,
                    num_bootstrap_methods,
                    bootstrap_methods,
                },
            );
            proof {
                lemma_subrange_cat(bytes@, o0 as int, o2 as int, o3 as int);
                lemma_subrange_cat(bytes@, o0 as int, o3 as int, *offset as int);
                assert(enc_attribute(a) =~= bytes@.subrange(o0 as int, *offset as int));
            }
            Ok(a)
        } else if name_is(&attribute_name, "MethodParameters") {
            proof {
                if hyp {
                    assert(w is MethodParameters);
                }
            }
            let parameters_count = match read_u8(bytes, offset) {
                Ok(v) => v,
                Err(e) => {
                    return Err(e);
                },
            };
            let ghost o3 = *offset;
            proof {
                if hyp {
                    assert(parameters_count == bytes@[o2 as int]) by {
                        assert(seq![parameters_count][0] == bytes@.subrange(o2 as int, o2 + 1)[0]);
                    }
                    assert(parameters_count == w->MethodParameters_0.parameters_count);
                }
            }
            let parameters = match read_parameters(bytes, offset, parameters_count as usize) {
                Ok(v) => v,
                Err(e) => {
                    return Err(e);
                },
            };
            let a = Attribute::MethodParameters(
                MethodParametersAttribute {
                    attribute_name_index,
                    attribute_length,
                    parameters_count,
                    parameters,
                },
            );
            proof {
                lemma_subrange_cat(bytes@, o0 as int, o2 as int, o3 as int);
                lemma_subrange_cat(bytes@, o0 as int, o3 as int, *offset as int);
                assert(enc_attribute(a) =~= bytes@.subrange(o0 as int, *offset as int));
            }
            Ok(a)
        } else if name_is(&attribute_name, "Module") {
            Attribute::read_module_attribute(
                bytes,
                offset,
                constant_pool,
                attribute_name_index,
                attribute_length,
                Ghost(o0 as int),
                Ghost(hyp),
                Ghost(w),
            )
        } else if name_is(&attribute_name, "NestHost") {
            proof {
                if hyp {
                    assert(w is NestHost);
                }
            }
            let host_class_index = match read_u16(bytes, offset) {
                Ok(v) => v,
                Err(e) => {
                    return Err(e);
                },
            };
            let a = Attribute::NestHost(
                NestHostAttribute { attribute_name_index, attribute_length, host_class_index },
            );
            proof {
                lemma_subrange_cat(bytes@, o0 as int, o2 as int, *offset as int);
                assert(enc_attribute(a) =~= bytes@.subrange(o0 as int, *offset as int));
            }
            Ok(a)
        } else if name_is(&attribute_name, "NestMembers") {
            proof {
                if hyp {
                    assert(w is NestMembers);
                }
            }
            let number_of_classes = match read_u16(bytes, offset) {
                Ok(v) => v,
                Err(e) => {
                    return Err(e);
                },
            };
            let ghost o3 = *offset;
            proof {
                if hyp {
                    assert(be16(number_of_classes) == be16(w->NestMembers_0.number_of_classes));
                    lemma_be16_inj(number_of_classes, w->NestMembers_0.number_of_classes);
                }
            }
            let classes = match read_u16s(bytes, offset, number_of_classes as usize) {
                Ok(v) => v,
                Err(e) => {
                    return Err(e);
                },
            };
            let a = Attribute::NestMembers(
                NestMembersAttribute {
                    attribute_name_index,
                    attribute_length,
                    number_of_classes,
                    classes,
                },
            );
            proof {
                lemma_subrange_cat(bytes@, o0 as int, o2 as int, o3 as int);
                lemma_subrange_cat(bytes@, o0 as int, o3 as int, *offset as int);
                assert(enc_attribute(a) =~= bytes@.subrange(o0 as int, *offset as int));
            }
            Ok(a)
        } else if name_is(&attribute_name, "PermittedSubclasses") {
            proof {
                if hyp {
                    assert(w is PermittedSubclasses);
                }
            }
            let number_of_classes = match read_u16(bytes, offset) {
                Ok(v) => v,
                Err(e) => {
                    return Err(e);
                },
            };
            let ghost o3 = *offset;
            proof {
                if hyp {
                    assert(be16(number_of_classes) == be16(
                        w->PermittedSubclasses_0.number_of_classes,
                    ));
                    lemma_be16_inj(number_of_classes, w->PermittedSubclasses_0.number_of_classes);
                }
            }
            let classes = match read_u16s(bytes, offset, number_of_classes as usize) {
                Ok(v) => v,
                Err(e) => {
                    return Err(e);
                },
            };
            let a = Attribute::PermittedSubclasses(
                PermittedSubclassesAttribute {
                    attribute_name_index,
                    attribute_length,
                    number_of_classes,
                    classes,
                },
            );
            proof {
                lemma_subrange_cat(bytes@, o0 as int, o2 as int, o3 as int);
                lemma_subrange_cat(bytes@, o0 as int, o3 as int, *offset as int);
                assert(enc_attribute(a) =~= bytes@.subrange(o0 as int, *offset as int));
            }
            Ok(a)
        } else {
            proof {
                if hyp {
                    assert(w is General);
                }
            }
            let info = match read_u8_vec(bytes, offset, attribute_length as usize) {
                Ok(v) => v,
                Err(e) => {
                    return Err(e);
                },
            };
            let a = Attribute::General(
                AttributeInfo { attribute_name_index, attribute_length, info },
            );
            proof {
                assert(!known_attribute_name(attribute_name@));
                lemma_subrange_cat(bytes@, o0 as int, o2 as int, *offset as int);
                assert(enc_attribute(a) =~= bytes@.subrange(o0 as int, *offset as int));
            }
            Ok(a)
        }
    }
}

/// Reads `num_of_items` attributes, one after the other, resolving each
/// name through the same pool.
#[verifier::loop_isolation(false)]
#[verifier::rlimit(100)]
#[verifier::spinoff_prover]
pub fn read_attributes(
    bytes: &[u8],
    offset: &mut usize,
    constant_pool: &Vec<CpInfo>,
    num_of_items: usize,
) -> (r: Result<Vec<Attribute>, Error>)
    requires
        *old(offset) <= bytes@.len(),
    ensures
        *old(offset) <= *final(offset),
        (exists|s: Seq<Attribute>|
            #![trigger enc_attribute_list(s)]
            s.len() == num_of_items && wf_attribute_list(constant_pool@, s) && starts_with(
                bytes@.skip(*old(offset) as int),
                enc_attribute_list(s),
            )) ==> r is Ok,
        r is Ok ==> {
            &&& *final(offset) <= bytes@.len()
            &&& r->Ok_0@.len() == num_of_items
            &&& wf_attribute_list(constant_pool@, r->Ok_0@)
            &&& enc_attribute_list(r->Ok_0@) == bytes@.subrange(
                *old(offset) as int,
                *final(offset) as int,
            )
        },
    decreases bytes@.len() - *offset, 1int,
{
    let ghost o0 = *offset;
    let ghost hyp = exists|s: Seq<Attribute>|
        #![trigger enc_attribute_list(s)]
        s.len() == num_of_items && wf_attribute_list(constant_pool@, s) && starts_with(
            bytes@.skip(o0 as int),
            enc_attribute_list(s),
        );
    let ghost w: Seq<Attribute> = if hyp {
        choose|s: Seq<Attribute>|
            #![trigger enc_attribute_list(s)]
            s.len() == num_of_items && wf_attribute_list(constant_pool@, s) && starts_with(
                bytes@.skip(o0 as int),
                enc_attribute_list(s),
            )
    } else {
        Seq::empty()
    };
    proof {
        if hyp {
            assert(w.skip(0) =~= w);
        }
        assert(enc_attribute_list(Seq::<Attribute>::empty()) =~= bytes@.subrange(
            o0 as int,
            o0 as int,
        ));
    }
    let mut items: Vec<Attribute> = Vec::new();
    let mut k: usize = 0;
    while k < num_of_items
        invariant
            o0 <= *offset,
            *offset <= bytes@.len(),
            items@.len() == k,
            k <= num_of_items,
            wf_attribute_list(constant_pool@, items@),
            enc_attribute_list(items@) == bytes@.subrange(o0 as int, *offset as int),
            hyp ==> starts_with(bytes@.skip(*offset as int), enc_attribute_list(w.skip(k as int))),
            hyp ==> wf_attribute_list(constant_pool@, w.skip(k as int)),
        decreases num_of_items - k,
    {
        let ghost before = *offset;
        proof {
            if hyp {
                assert(w.skip(k as int).len() > 0);
                assert(w.skip(k as int)[0] == w[k as int]);
                assert(w.skip(k as int).drop_first() =~= w.skip(k + 1));
                assert(enc_attribute_list(w.skip(k as int)) == enc_attribute(w[k as int]) + enc_attribute_list(
                    w.skip(k + 1),
                ));
                lemma_starts_with_cat(
                    bytes@.skip(before as int),
                    enc_attribute(w[k as int]),
                    enc_attribute_list(w.skip(k + 1)),
                );
                assert(wf_attribute(constant_pool@, w[k as int]));
            }
        }
        let item = match Attribute::read(bytes, offset, constant_pool) {
            Ok(v) => v,
            Err(e) => {
                return Err(e);
            },
        };
        proof {
            lemma_enc_attribute_list_push(items@, item);
            lemma_wf_attribute_list_push(constant_pool@, items@, item);
            lemma_subrange_cat(bytes@, o0 as int, before as int, *offset as int);
            if hyp {
                lemma_starts_with_split(bytes@.skip(before as int), enc_attribute(w[k as int]));
                assert(bytes@.skip(before as int) =~= enc_attribute(item) + bytes@.skip(
                    *offset as int,
                ));
                lemma_attribute_det(constant_pool@, item, bytes@.skip(*offset as int), w[k as int], bytes@.skip(before as int).skip(enc_attribute(w[k as int]).len() as int));
                assert(starts_with(bytes@.skip(*offset as int), enc_attribute_list(w.skip(k + 1))));
            }
        }
        items.push(item);
        k = k + 1;
    }
    Ok(items)
}


impl FieldsInfo {
    /// Reads one field declaration, including its attribute list.
    pub fn read(bytes: &[u8], offset: &mut usize, constant_pool: &Vec<CpInfo>) -> (r: Result<
        FieldsInfo,
        Error,
    >)
        requires
            *old(offset) <= bytes@.len(),
        ensures
            *old(offset) <= *final(offset),
            (exists|v: FieldsInfo|
                #![trigger enc_field(v)]
                wf_field(constant_pool@, v) && starts_with(
                    bytes@.skip(*old(offset) as int),
                    enc_field(v),
                )) ==> r is Ok,
            r is Ok ==> {
                &&& *final(offset) <= bytes@.len()
                &&& wf_field(constant_pool@, r->Ok_0)
                &&& enc_field(r->Ok_0) == bytes@.subrange(*old(offset) as int, *final(offset) as int)
            },
    {
        let ghost o0 = *offset;
        let ghost hyp = exists|v: FieldsInfo|
            #![trigger enc_field(v)]
            wf_field(constant_pool@, v) && starts_with(bytes@.skip(o0 as int), enc_field(v));
        let ghost w: FieldsInfo = choose|v: FieldsInfo|
            #![trigger enc_field(v)]
            wf_field(constant_pool@, v) && starts_with(bytes@.skip(o0 as int), enc_field(v));
        proof {
            if hyp {
                let rem = bytes@.skip(o0 as int);
                assert(enc_field(w) =~= be16(w.access_flags) + (be16(w.name_index) + (be16(
                    w.descriptor_index,
                ) + (be16(w.attributes_count) + enc_attribute_list(w.attributes@)))));
                lemma_starts_with_cat(
                    rem,
                    be16(w.access_flags),
                    be16(w.name_index) + (be16(w.descriptor_index) + (be16(w.attributes_count)
                        + enc_attribute_list(w.attributes@))),
                );
                lemma_starts_with_cat(
                    rem.skip(2),
                    be16(w.name_index),
                    be16(w.descriptor_index) + (be16(w.attributes_count) + enc_attribute_list(
                        w.attributes@,
                    )),
                );
                assert(rem.skip(2).skip(2) =~= rem.skip(4));
                lemma_starts_with_cat(
                    rem.skip(4),
                    be16(w.descriptor_index),
                    be16(w.attributes_count) + enc_attribute_list(w.attributes@),
                );
                assert(rem.skip(4).skip(2) =~= rem.skip(6));
                lemma_starts_with_cat(
                    rem.skip(6),
                    be16(w.attributes_count),
                    enc_attribute_list(w.attributes@),
                );
                assert(rem.skip(6).subrange(0, 2) == be16(w.attributes_count));
                assert(bytes@.subrange(o0 + 6, o0 + 8) =~= be16(w.attributes_count));
                lemma_be16_at(bytes@, o0 + 6, w.attributes_count);
                assert(rem.skip(6).skip(2) =~= bytes@.skip(o0 + 8));
            }
        }
        let access_flags = match read_u16(bytes, offset) {
            Ok(v) => v,
            Err(e) => {
                return Err(e);
            },
        };
        let ghost o1 = *offset;
        let name_index = match read_u16(bytes, offset) {
            Ok(v) => v,
            Err(e) => {
                return Err(e);
            },
        };
        let ghost o2 = *offset;
        let descriptor_index = match read_u16(bytes, offset) {
            Ok(v) => v,
            Err(e) => {
                return Err(e);
            },
        };
        let ghost o3 = *offset;
        let attributes_count = match read_u16(bytes, offset) {
            Ok(v) => v,
            Err(e) => {
                return Err(e);
            },
        };
        let ghost o4 = *offset;
        proof {
            if hyp {
                lemma_be16_at(bytes@, o0 + 6, attributes_count);
                assert(attributes_count == w.attributes_count);
                assert(w.attributes@.len() == attributes_count);
            }
        }
        let attributes = match read_attributes(bytes, offset, constant_pool, attributes_count
            as usize) {
            Ok(v) => v,
            Err(e) => {
                return Err(e);
            },
        };
        let r = FieldsInfo { access_flags, name_index, descriptor_index, attributes_count, attributes };
        proof {
            lemma_subrange_cat(bytes@, o0 as int, o1 as int, o2 as int);
            lemma_subrange_cat(bytes@, o0 as int, o2 as int, o3 as int);
            lemma_subrange_cat(bytes@, o0 as int, o3 as int, o4 as int);
            lemma_subrange_cat(bytes@, o0 as int, o4 as int, *offset as int);
            assert(enc_field(r) =~= bytes@.subrange(o0 as int, *offset as int));
        }
        Ok(r)
    }
}

impl MethodInfo {
    /// Reads one method declaration, including its attribute list.
    pub fn read(bytes: &[u8], offset: &mut usize, constant_pool: &Vec<CpInfo>) -> (r: Result<
        MethodInfo,
        Error,
    >)
        requires
            *old(offset) <= bytes@.len(),
        ensures
            *old(offset) <= *final(offset),
            (exists|v: MethodInfo|
                #![trigger enc_method(v)]
                wf_method(constant_pool@, v) && starts_with(
                    bytes@.skip(*old(offset) as int),
                    enc_method(v),
                )) ==> r is Ok,
            r is Ok ==> {
                &&& *final(offset) <= bytes@.len()
                &&& wf_method(constant_pool@, r->Ok_0)
                &&& enc_method(r->Ok_0) == bytes@.subrange(*old(offset) as int, *final(offset) as int)
            },
    {
        let ghost o0 = *offset;
        let ghost hyp = exists|v: MethodInfo|
            #![trigger enc_method(v)]
            wf_method(constant_pool@, v) && starts_with(bytes@.skip(o0 as int), enc_method(v));
        let ghost w: MethodInfo = choose|v: MethodInfo|
            #![trigger enc_method(v)]
            wf_method(constant_pool@, v) && starts_with(bytes@.skip(o0 as int), enc_method(v));
        proof {
            if hyp {
                let rem = bytes@.skip(o0 as int);
                assert(enc_method(w) =~= be16(w.access_flags) + (be16(w.name_index) + (be16(
                    w.descriptor_index,
                ) + (be16(w.attributes_count) + enc_attribute_list(w.attributes@)))));
                lemma_starts_with_cat(
                    rem,
                    be16(w.access_flags),
                    be16(w.name_index) + (be16(w.descriptor_index) + (be16(w.attributes_count)
                        + enc_attribute_list(w.attributes@))),
                );
                lemma_starts_with_cat(
                    rem.skip(2),
                    be16(w.name_index),
                    be16(w.descriptor_index) + (be16(w.attributes_count) + enc_attribute_list(
                        w.attributes@,
                    )),
                );
                assert(rem.skip(2).skip(2) =~= rem.skip(4));
                lemma_starts_with_cat(
                    rem.skip(4),
                    be16(w.descriptor_index),
                    be16(w.attributes_count) + enc_attribute_list(w.attributes@),
                );
                assert(rem.skip(4).skip(2) =~= rem.skip(6));
                lemma_starts_with_cat(
                    rem.skip(6),
                    be16(w.attributes_count),
                    enc_attribute_list(w.attributes@),
                );
                assert(rem.skip(6).subrange(0, 2) == be16(w.attributes_count));
                assert(bytes@.subrange(o0 + 6, o0 + 8) =~= be16(w.attributes_count));
                lemma_be16_at(bytes@, o0 + 6, w.attributes_count);
                assert(rem.skip(6).skip(2) =~= bytes@.skip(o0 + 8));
            }
        }
        let access_flags = match read_u16(bytes, offset) {
            Ok(v) => v,
            Err(e) => {
                return Err(e);
            },
        };
        let ghost o1 = *offset;
        let name_index = match read_u16(bytes, offset) {
            Ok(v) => v,
            Err(e) => {
                return Err(e);
            },
        };
        let ghost o2 = *offset;
        let descriptor_index = match read_u16(bytes, offset) {
            Ok(v) => v,
            Err(e) => {
                return Err(e);
            },
        };
        let ghost o3 = *offset;
        let attributes_count = match read_u16(bytes, offset) {
            Ok(v) => v,
            Err(e) => {
                return Err(e);
            },
        };
        let ghost o4 = *offset;
        proof {
            if hyp {
                lemma_be16_at(bytes@, o0 + 6, attributes_count);
                assert(attributes_count == w.attributes_count);
                assert(w.attributes@.len() == attributes_count);
            }
        }
        let attributes = match read_attributes(bytes, offset, constant_pool, attributes_count
            as usize) {
            Ok(v) => v,
            Err(e) => {
                return Err(e);
            },
        };
        let r = MethodInfo { access_flags, name_index, descriptor_index, attributes_count, attributes };
        proof {
            lemma_subrange_cat(bytes@, o0 as int, o1 as int, o2 as int);
            lemma_subrange_cat(bytes@, o0 as int, o2 as int, o3 as int);
            lemma_subrange_cat(bytes@, o0 as int, o3 as int, o4 as int);
            lemma_subrange_cat(bytes@, o0 as int, o4 as int, *offset as int);
            assert(enc_method(r) =~= bytes@.subrange(o0 as int, *offset as int));
        }
        Ok(r)
    }
}

/// Reads `num_of_items` field declarations.
#[verifier::loop_isolation(false)]
#[verifier::rlimit(100)]
#[verifier::spinoff_prover]
pub fn read_fields(
    bytes: &[u8],
    offset: &mut usize,
    constant_pool: &Vec<CpInfo>,
    num_of_items: usize,
) -> (r: Result<Vec<FieldsInfo>, Error>)
    requires
        *old(offset) <= bytes@.len(),
    ensures
        *old(offset) <= *final(offset),
        (exists|s: Seq<FieldsInfo>|
            #![trigger enc_field_list(s)]
            s.len() == num_of_items && (forall|i: int| 0 <= i < s.len() ==> wf_field(constant_pool@, #[trigger] s[i])) && starts_with(
                bytes@.skip(*old(offset) as int),
                enc_field_list(s),
            )) ==> r is Ok,
        r is Ok ==> {
            &&& *final(offset) <= bytes@.len()
            &&& r->Ok_0@.len() == num_of_items
            &&& forall|i: int|
                0 <= i < num_of_items ==> wf_field(constant_pool@, #[trigger] r->Ok_0@[i])
            &&& enc_field_list(r->Ok_0@) == bytes@.subrange(
                *old(offset) as int,
                *final(offset) as int,
            )
        },
{
    let ghost o0 = *offset;
    let ghost hyp = exists|s: Seq<FieldsInfo>|
        #![trigger enc_field_list(s)]
        s.len() == num_of_items && (forall|i: int| 0 <= i < s.len() ==> wf_field(constant_pool@, #[trigger] s[i])) && starts_with(
            bytes@.skip(o0 as int),
            enc_field_list(s),
        );
    let ghost w: Seq<FieldsInfo> = if hyp {
        choose|s: Seq<FieldsInfo>|
            #![trigger enc_field_list(s)]
            s.len() == num_of_items && (forall|i: int| 0 <= i < s.len() ==> wf_field(constant_pool@, #[trigger] s[i])) && starts_with(
                bytes@.skip(o0 as int),
                enc_field_list(s),
            )
    } else {
        Seq::empty()
    };
    proof {
        if hyp {
            assert(w.skip(0) =~= w);
        }
        assert(enc_field_list(Seq::<FieldsInfo>::empty()) =~= bytes@.subrange(
            o0 as int,
            o0 as int,
        ));
    }
    let mut items: Vec<FieldsInfo> = Vec::new();
    let mut k: usize = 0;
    while k < num_of_items
        invariant
            o0 <= *offset,
            *offset <= bytes@.len(),
            items@.len() == k,
            k <= num_of_items,
            forall|i: int| 0 <= i < k ==> wf_field(constant_pool@, #[trigger] items@[i]),
            enc_field_list(items@) == bytes@.subrange(o0 as int, *offset as int),
            hyp ==> starts_with(bytes@.skip(*offset as int), enc_field_list(w.skip(k as int))),
        decreases num_of_items - k,
    {
        let ghost before = *offset;
        proof {
            if hyp {
                assert(w.skip(k as int).len() > 0);
                assert(w.skip(k as int)[0] == w[k as int]);
                assert(w.skip(k as int).drop_first() =~= w.skip(k + 1));
                assert(enc_field_list(w.skip(k as int)) == enc_field(w[k as int]) + enc_field_list(
                    w.skip(k + 1),
                ));
                lemma_starts_with_cat(
                    bytes@.skip(before as int),
                    enc_field(w[k as int]),
                    enc_field_list(w.skip(k + 1)),
                );
                assert(wf_field(constant_pool@, w[k as int]));
            }
        }
        let item = match FieldsInfo::read(bytes, offset, constant_pool) {
            Ok(v) => v,
            Err(e) => {
                return Err(e);
            },
        };
        proof {
            lemma_enc_field_list_push(items@, item);
            lemma_subrange_cat(bytes@, o0 as int, before as int, *offset as int);
            if hyp {
                lemma_starts_with_split(bytes@.skip(before as int), enc_field(w[k as int]));
                assert(bytes@.skip(before as int) =~= enc_field(item) + bytes@.skip(
                    *offset as int,
                ));
                lemma_field_det(constant_pool@, item, bytes@.skip(*offset as int), w[k as int], bytes@.skip(before as int).skip(enc_field(w[k as int]).len() as int));
                assert(starts_with(bytes@.skip(*offset as int), enc_field_list(w.skip(k + 1))));
            }
        }
        items.push(item);
        k = k + 1;
    }
    Ok(items)
}

/// Reads `num_of_items` method declarations.
#[verifier::loop_isolation(false)]
#[verifier::rlimit(100)]
#[verifier::spinoff_prover]
pub fn read_methods(
    bytes: &[u8],
    offset: &mut usize,
    constant_pool: &Vec<CpInfo>,
    num_of_items: usize,
) -> (r: Result<Vec<MethodInfo>, Error>)
    requires
        *old(offset) <= bytes@.len(),
    ensures
        *old(offset) <= *final(offset),
        (exists|s: Seq<MethodInfo>|
            #![trigger enc_method_list(s)]
            s.len() == num_of_items && (forall|i: int| 0 <= i < s.len() ==> wf_method(constant_pool@, #[trigger] s[i])) && starts_with(
                bytes@.skip(*old(offset) as int),
                enc_method_list(s),
            )) ==> r is Ok,
        r is Ok ==> {
            &&& *final(offset) <= bytes@.len()
            &&& r->Ok_0@.len() == num_of_items
            &&& forall|i: int|
                0 <= i < num_of_items ==> wf_method(constant_pool@, #[trigger] r->Ok_0@[i])
            &&& enc_method_list(r->Ok_0@) == bytes@.subrange(
                *old(offset) as int,
                *final(offset) as int,
            )
        },
{
    let ghost o0 = *offset;
    let ghost hyp = exists|s: Seq<MethodInfo>|
        #![trigger enc_method_list(s)]
        s.len() == num_of_items && (forall|i: int| 0 <= i < s.len() ==> wf_method(constant_pool@, #[trigger] s[i])) && starts_with(
            bytes@.skip(o0 as int),
            enc_method_list(s),
        );
    let ghost w: Seq<MethodInfo> = if hyp {
        choose|s: Seq<MethodInfo>|
            #![trigger enc_method_list(s)]
            s.len() == num_of_items && (forall|i: int| 0 <= i < s.len() ==> wf_method(constant_pool@, #[trigger] s[i])) && starts_with(
                bytes@.skip(o0 as int),
                enc_method_list(s),
            )
    } else {
        Seq::empty()
    };
    proof {
        if hyp {
            assert(w.skip(0) =~= w);
        }
        assert(enc_method_list(Seq::<MethodInfo>::empty()) =~= bytes@.subrange(
            o0 as int,
            o0 as int,
        ));
    }
    let mut items: Vec<MethodInfo> = Vec::new();
    let mut k: usize = 0;
    while k < num_of_items
        invariant
            o0 <= *offset,
            *offset <= bytes@.len(),
            items@.len() == k,
            k <= num_of_items,
            forall|i: int| 0 <= i < k ==> wf_method(constant_pool@, #[trigger] items@[i]),
            enc_method_list(items@) == bytes@.subrange(o0 as int, *offset as int),
            hyp ==> starts_with(bytes@.skip(*offset as int), enc_method_list(w.skip(k as int))),
        decreases num_of_items - k,
    {
        let ghost before = *offset;
        proof {
            if hyp {
                assert(w.skip(k as int).len() > 0);
                assert(w.skip(k as int)[0] == w[k as int]);
                assert(w.skip(k as int).drop_first() =~= w.skip(k + 1));
                assert(enc_method_list(w.skip(k as int)) == enc_method(w[k as int]) + enc_method_list(
                    w.skip(k + 1),
                ));
                lemma_starts_with_cat(
                    bytes@.skip(before as int),
                    enc_method(w[k as int]),
                    enc_method_list(w.skip(k + 1)),
                );
                assert(wf_method(constant_pool@, w[k as int]));
            }
        }
        let item = match MethodInfo::read(bytes, offset, constant_pool) {
            Ok(v) => v,
            Err(e) => {
                return Err(e);
            },
        };
        proof {
            lemma_enc_method_list_push(items@, item);
            lemma_subrange_cat(bytes@, o0 as int, before as int, *offset as int);
            if hyp {
                lemma_starts_with_split(bytes@.skip(before as int), enc_method(w[k as int]));
                assert(bytes@.skip(before as int) =~= enc_method(item) + bytes@.skip(
                    *offset as int,
                ));
                lemma_method_det(constant_pool@, item, bytes@.skip(*offset as int), w[k as int], bytes@.skip(before as int).skip(enc_method(w[k as int]).len() as int));
                assert(starts_with(bytes@.skip(*offset as int), enc_method_list(w.skip(k + 1))));
            }
        }
        items.push(item);
        k = k + 1;
    }
    Ok(items)
}

impl ConstantPool {
    /// Reads the pool section: its 16-bit count, then `count - 1` entries.
    pub fn read(bytes: &[u8], offset: &mut usize) -> (r: Result<ConstantPool, Error>)
        requires
            *old(offset) <= bytes@.len(),
        ensures
            *old(offset) <= *final(offset),
            (exists|p: ConstantPool|
                #![trigger enc_cp_list(p.cp_infos@)]
                p.constant_pool_count >= 1 && p.cp_infos@.len() == p.constant_pool_count - 1
                    && wf_cp_list(p.cp_infos@) && starts_with(
                    bytes@.skip(*old(offset) as int),
                    be16(p.constant_pool_count) + enc_cp_list(p.cp_infos@),
                )) ==> r is Ok,
            r is Ok ==> {
                &&& *final(offset) <= bytes@.len()
                &&& r->Ok_0.constant_pool_count >= 1
                &&& r->Ok_0.cp_infos@.len() == r->Ok_0.constant_pool_count - 1
                &&& wf_cp_list(r->Ok_0.cp_infos@)
                &&& be16(r->Ok_0.constant_pool_count) + enc_cp_list(r->Ok_0.cp_infos@)
                    == bytes@.subrange(*old(offset) as int, *final(offset) as int)
            },
    {
        let ghost o0 = *offset;
        let ghost hyp = exists|p: ConstantPool|
            #![trigger enc_cp_list(p.cp_infos@)]
            p.constant_pool_count >= 1 && p.cp_infos@.len() == p.constant_pool_count - 1
                && wf_cp_list(p.cp_infos@) && starts_with(
                bytes@.skip(o0 as int),
                be16(p.constant_pool_count) + enc_cp_list(p.cp_infos@),
            );
        let ghost w: ConstantPool = choose|p: ConstantPool|
            #![trigger enc_cp_list(p.cp_infos@)]
            p.constant_pool_count >= 1 && p.cp_infos@.len() == p.constant_pool_count - 1
                && wf_cp_list(p.cp_infos@) && starts_with(
                bytes@.skip(o0 as int),
                be16(p.constant_pool_count) + enc_cp_list(p.cp_infos@),
            );
        proof {
            if hyp {
                lemma_starts_with_cat(
                    bytes@.skip(o0 as int),
                    be16(w.constant_pool_count),
                    enc_cp_list(w.cp_infos@),
                );
                assert(bytes@.subrange(o0 as int, o0 + 2) =~= be16(w.constant_pool_count));
            }
        }
        let constant_pool_count = match read_u16(bytes, offset) {
            Ok(v) => v,
            Err(e) => {
                return Err(e);
            },
        };
        proof {
            if hyp {
                assert(be16(constant_pool_count) == be16(w.constant_pool_count));
                lemma_be16_inj(constant_pool_count, w.constant_pool_count);
                assert(bytes@.skip(o0 as int).skip(2) =~= bytes@.skip(o0 + 2));
            }
        }
        if constant_pool_count == 0 {
            return reader_error("constant pool count must be at least one", *offset);
        }
        let ghost o1 = *offset;
        let cp_infos = match read_cp_infos(bytes, offset, (constant_pool_count - 1) as usize) {
            Ok(v) => v,
            Err(e) => {
                return Err(e);
            },
        };
        let r = ConstantPool { constant_pool_count, cp_infos };
        proof {
            lemma_subrange_cat(bytes@, o0 as int, o1 as int, *offset as int);
            assert(be16(r.constant_pool_count) + enc_cp_list(r.cp_infos@) =~= bytes@.subrange(
                o0 as int,
                *offset as int,
            ));
        }
        Ok(r)
    }
}

impl ClassFile {
    /// Reads the member sections of a unit — membership flags, type
    /// references, interface, field, method and attribute lists — after the
    /// header and pool have been consumed and checked, and assembles the
    /// decoded unit.
    #[verifier::rlimit(100)]
    #[verifier::spinoff_prover]
    fn read_members(
        bytes: &[u8],
        offset: &mut usize,
        magic: [u8; 4],
        minor_version: u16,
        major_version: u16,
        constant_pool_count: u16,
        constant_pool: Vec<CpInfo>,
        Ghost(hyp): Ghost<bool>,
        Ghost(w): Ghost<ClassFile>,
    ) -> (r: Result<ClassFile, Error>)
        requires
            *old(offset) <= bytes@.len(),
            magic@ == spec_magic(),
            constant_pool_count >= 1,
            constant_pool@.len() == constant_pool_count - 1,
            wf_cp_list(constant_pool@),
            bytes@.subrange(0, *old(offset) as int) == magic@ + be16(minor_version) + be16(
                major_version,
            ) + be16(constant_pool_count) + enc_cp_list(constant_pool@),
            hyp ==> {
                &&& wf_class_file(w)
                &&& enc_class_file(w) == bytes@
                &&& same_text_entries(constant_pool@, w.constant_pool@)
                &&& bytes@.skip(*old(offset) as int) == enc_after_pool(w)
            },
        ensures
            *old(offset) <= *final(offset),
            hyp ==> r is Ok,
            r is Ok ==> {
                &&& wf_class_file(r->Ok_0)
                &&& enc_class_file(r->Ok_0) == bytes@
                &&& r->Ok_0.minor_version == minor_version
                &&& r->Ok_0.major_version == major_version
                &&& r->Ok_0.constant_pool@ == constant_pool@
            },
    {
        let ghost p0 = *offset;
        let ghost o5 = p0;
        proof {
            if hyp {
                lemma_peel(bytes@, o5 as int, be16(w.access_flags), enc_after_access(w));
            }
        }
        let access_flags = match read_u16(bytes, offset) {
            Ok(v) => v,
            Err(e) => {
                return Err(e);
            },
        };
        let ghost o6 = *offset;
        proof {
            if hyp {
                lemma_peel(bytes@, o6 as int, be16(w.this_class), enc_after_this(w));
            }
        }
        let this_class = match read_u16(bytes, offset) {
            Ok(v) => v,
            Err(e) => {
                return Err(e);
            },
        };
        let ghost o7 = *offset;
        proof {
            if hyp {
                lemma_peel(bytes@, o7 as int, be16(w.super_class), enc_after_super(w));
            }
        }
        let super_class = match read_u16(bytes, offset) {
            Ok(v) => v,
            Err(e) => {
                return Err(e);
            },
        };
        let ghost o8 = *offset;
        proof {
            if hyp {
                lemma_peel(bytes@, o8 as int, be16(w.interfaces_count), enc_after_interface_count(w));
            }
        }
        let interfaces_count = match read_u16(bytes, offset) {
            Ok(v) => v,
            Err(e) => {
                return Err(e);
            },
        };
        let ghost o9 = *offset;
        proof {
            if hyp {
                assert(be16(interfaces_count) == be16(w.interfaces_count));
                lemma_be16_inj(interfaces_count, w.interfaces_count);
                lemma_enc_u16_list_len(w.interfaces@);
                lemma_peel(bytes@, o9 as int, enc_u16_list(w.interfaces@), enc_after_interfaces(w));
            }
        }
        let interfaces = match read_u16s(bytes, offset, interfaces_count as usize) {
            Ok(v) => v,
            Err(e) => {
                return Err(e);
            },
        };
        let ghost o10 = *offset;
        proof {
            if hyp {
                lemma_enc_u16_list_len(interfaces@);
                assert(o10 == o9 + 2 * w.interfaces@.len());
                lemma_peel(bytes@, o10 as int, be16(w.fields_count), enc_after_field_count(w));
            }
        }
        let fields_count = match read_u16(bytes, offset) {
            Ok(v) => v,
            Err(e) => {
                return Err(e);
            },
        };
        let ghost o11 = *offset;
        proof {
            if hyp {
                assert(be16(fields_count) == be16(w.fields_count));
                lemma_be16_inj(fields_count, w.fields_count);
                assert forall|i: int| 0 <= i < w.fields@.len() implies wf_field(
                    constant_pool@,
                    #[trigger] w.fields@[i],
                ) by {
                    lemma_wf_attribute_list_same_pool(
                        constant_pool@,
                        w.constant_pool@,
                        w.fields@[i].attributes@,
                    );
                }
                lemma_peel(bytes@, o11 as int, enc_field_list(w.fields@), enc_after_fields(w));
            }
        }
        let fields = match read_fields(bytes, offset, &constant_pool, fields_count as usize) {
            Ok(v) => v,
            Err(e) => {
                return Err(e);
            },
        };
        let ghost o12 = *offset;
        proof {
            if hyp {
                assert(bytes@.skip(o11 as int) =~= enc_field_list(fields@) + bytes@.skip(
                    o12 as int,
                ));
                lemma_field_list_det(
                    constant_pool@,
                    fields@,
                    bytes@.skip(o12 as int),
                    w.fields@,
                    enc_after_fields(w),
                );
                lemma_peel(bytes@, o12 as int, be16(w.methods_count), enc_after_method_count(w));
            }
        }
        let methods_count = match read_u16(bytes, offset) {
            Ok(v) => v,
            Err(e) => {
                return Err(e);
            },
        };
        let ghost o13 = *offset;
        proof {
            if hyp {
                assert(be16(methods_count) == be16(w.methods_count));
                lemma_be16_inj(methods_count, w.methods_count);
                assert forall|i: int| 0 <= i < w.methods@.len() implies wf_method(
                    constant_pool@,
                    #[trigger] w.methods@[i],
                ) by {
                    lemma_wf_attribute_list_same_pool(
                        constant_pool@,
                        w.constant_pool@,
                        w.methods@[i].attributes@,
                    );
                }
                lemma_peel(bytes@, o13 as int, enc_method_list(w.methods@), enc_after_methods(w));
            }
        }
        let methods = match read_methods(bytes, offset, &constant_pool, methods_count as usize) {
            Ok(v) => v,
            Err(e) => {
                return Err(e);
            },
        };
        let ghost o14 = *offset;
        proof {
            if hyp {
                assert(bytes@.skip(o13 as int) =~= enc_method_list(methods@) + bytes@.skip(
                    o14 as int,
                ));
                lemma_method_list_det(
                    constant_pool@,
                    methods@,
                    bytes@.skip(o14 as int),
                    w.methods@,
                    enc_after_methods(w),
                );
                lemma_peel(
                    bytes@,
                    o14 as int,
                    be16(w.attributes_count),
                    enc_attribute_list(w.attributes@),
                );
            }
        }
        let attributes_count = match read_u16(bytes, offset) {
            Ok(v) => v,
            Err(e) => {
                return Err(e);
            },
        };
        let ghost o15 = *offset;
        proof {
            if hyp {
                assert(be16(attributes_count) == be16(w.attributes_count));
                lemma_be16_inj(attributes_count, w.attributes_count);
                lemma_wf_attribute_list_same_pool(
                    constant_pool@,
                    w.constant_pool@,
                    w.attributes@,
                );
                assert(bytes@.skip(o15 as int) =~= enc_attribute_list(w.attributes@)
                    + Seq::<u8>::empty());
                lemma_peel(bytes@, o15 as int, enc_attribute_list(w.attributes@), Seq::<u8>::empty());
            }
        }
        let attributes = match read_attributes(
            bytes,
            offset,
            &constant_pool,
            attributes_count as usize,
        ) {
            Ok(v) => v,
            Err(e) => {
                return Err(e);
            },
        };
        proof {
            if hyp {
                assert(bytes@.skip(o15 as int) =~= enc_attribute_list(w.attributes@)
                    + Seq::<u8>::empty());
                assert(bytes@.skip(o15 as int) =~= enc_attribute_list(attributes@) + bytes@.skip(
                    *offset as int,
                ));
                lemma_attribute_list_det(
                    constant_pool@,
                    attributes@,
                    bytes@.skip(*offset as int),
                    w.attributes@,
                    Seq::<u8>::empty(),
                );
                assert(bytes@.skip(*offset as int).len() == 0);
                assert(*offset == bytes@.len());
            }
        }
        if bytes.len() != *offset {
            return reader_error("Too many bytes after reading class file.", *offset);
        }
        let cf = ClassFile {
            magic,
            minor_version,
            major_version,
            constant_pool_count,
            constant_pool,
            access_flags,
            this_class,
            super_class,
            interfaces_count,
            interfaces,
            fields_count,
            fields,
            methods_count,
            methods,
            attributes_count,
            attributes,
        };
        proof {
            lemma_subrange_cat(bytes@, 0, o5 as int, o6 as int);
            lemma_subrange_cat(bytes@, 0, o6 as int, o7 as int);
            lemma_subrange_cat(bytes@, 0, o7 as int, o8 as int);
            lemma_subrange_cat(bytes@, 0, o8 as int, o9 as int);
            lemma_subrange_cat(bytes@, 0, o9 as int, o10 as int);
            lemma_subrange_cat(bytes@, 0, o10 as int, o11 as int);
            lemma_subrange_cat(bytes@, 0, o11 as int, o12 as int);
            lemma_subrange_cat(bytes@, 0, o12 as int, o13 as int);
            lemma_subrange_cat(bytes@, 0, o13 as int, o14 as int);
            lemma_subrange_cat(bytes@, 0, o14 as int, o15 as int);
            lemma_subrange_cat(bytes@, 0, o15 as int, *offset as int);
            assert(enc_class_file(cf) =~= bytes@.subrange(0, *offset as int));
            assert(bytes@.subrange(0, bytes@.len() as int) =~= bytes@);
        }
        Ok(cf)
    }

    /// Reads a whole unit from its byte buffer: header, pool, membership
    /// flags, interface list, field list, method list and top-level
    /// attributes, in file order. The magic marker, the version pair and
    /// the pool rules are checked as early as possible; the buffer must be
    /// consumed exactly — trailing bytes are a hard failure. A successful
    /// decode is well-formed and re-encodes to exactly the input bytes, and
    /// whenever the buffer is exactly the wire form of a well-formed unit
    /// whose version and pool pass their checks, decoding succeeds.
    #[verifier::rlimit(100)]
    #[verifier::spinoff_prover]
    pub fn read_from_bytes(bytes: &[u8]) -> (r: Result<ClassFile, Error>)
        ensures
            (exists|cf: ClassFile|
                #![trigger enc_class_file(cf)]
                wf_class_file(cf) && enc_class_file(cf) == bytes@ && crate::checker::version_ok(
                    cf.minor_version,
                    cf.major_version,
                ) && crate::checker::cp_ok(cf.constant_pool@, cf.major_version)) ==> r is Ok,
            r is Ok ==> {
                &&& wf_class_file(r->Ok_0)
                &&& enc_class_file(r->Ok_0) == bytes@
                &&& crate::checker::version_ok(r->Ok_0.minor_version, r->Ok_0.major_version)
                &&& crate::checker::cp_ok(r->Ok_0.constant_pool@, r->Ok_0.major_version)
            },
    {
        let mut cursor: usize = 0;
        let offset = &mut cursor;
        let ghost o0: usize = 0;
        let ghost hyp = exists|cf: ClassFile|
            #![trigger enc_class_file(cf)]
            wf_class_file(cf) && enc_class_file(cf) == bytes@ && crate::checker::version_ok(
                cf.minor_version,
                cf.major_version,
            ) && crate::checker::cp_ok(cf.constant_pool@, cf.major_version);
        let ghost w: ClassFile = choose|cf: ClassFile|
            #![trigger enc_class_file(cf)]
            wf_class_file(cf) && enc_class_file(cf) == bytes@ && crate::checker::version_ok(
                cf.minor_version,
                cf.major_version,
            ) && crate::checker::cp_ok(cf.constant_pool@, cf.major_version);
        proof {
            if hyp {
                lemma_class_file_header(bytes@, w);
            }
        }
        let magic = match read_n4(bytes, offset) {
            Ok(v) => v,
            Err(e) => {
                return Err(e);
            },
        };
        proof {
            if hyp {
                assert(magic@ =~= w.magic@);
                assert(magic@ == crate::encoding::spec_magic());
            }
        }
        match crate::checker::check_magic(&magic) {
            Ok(_) => {},
            Err(e) => {
                return Err(e);
            },
        }
        let ghost o1 = *offset;
        let minor_version = match read_u16(bytes, offset) {
            Ok(v) => v,
            Err(e) => {
                return Err(e);
            },
        };
        let ghost o2 = *offset;
        let major_version = match read_u16(bytes, offset) {
            Ok(v) => v,
            Err(e) => {
                return Err(e);
            },
        };
        proof {
            if hyp {
                assert(be16(minor_version) == be16(w.minor_version));
                lemma_be16_inj(minor_version, w.minor_version);
                assert(be16(major_version) == be16(w.major_version));
                lemma_be16_inj(major_version, w.major_version);
            }
        }
        match crate::checker::check_version(minor_version, major_version) {
            Ok(_) => {},
            Err(e) => {
                return Err(e);
            },
        }
        let ghost o3 = *offset;
        let constant_pool_count = match read_u16(bytes, offset) {
            Ok(v) => v,
            Err(e) => {
                return Err(e);
            },
        };
        proof {
            if hyp {
                assert(be16(constant_pool_count) == be16(w.constant_pool_count));
                lemma_be16_inj(constant_pool_count, w.constant_pool_count);
                lemma_peel(bytes@, 10, enc_cp_list(w.constant_pool@), enc_after_pool(w));
            }
        }
        if constant_pool_count == 0 {
            return reader_error("constant pool count must be at least one", *offset);
        }
        let ghost o4 = *offset;
        let constant_pool = match read_cp_infos(bytes, offset, (constant_pool_count - 1) as usize)
            {
            Ok(v) => v,
            Err(e) => {
                return Err(e);
            },
        };
        proof {
            if hyp {
                assert(bytes@.skip(10) =~= enc_cp_list(constant_pool@) + bytes@.skip(
                    *offset as int,
                ));
                lemma_cp_list_det(
                    constant_pool@,
                    bytes@.skip(*offset as int),
                    w.constant_pool@,
                    enc_after_pool(w),
                );
                lemma_cp_ok_view_eq(constant_pool@, w.constant_pool@, major_version);
            }
        }
        match crate::checker::check_constant_pool(&constant_pool, major_version) {
            Ok(_) => {},
            Err(e) => {
                return Err(e);
            },
        }
        proof {
            lemma_subrange_cat(bytes@, 0, o1 as int, o2 as int);
            lemma_subrange_cat(bytes@, 0, o2 as int, o3 as int);
            lemma_subrange_cat(bytes@, 0, o3 as int, o4 as int);
            lemma_subrange_cat(bytes@, 0, o4 as int, *offset as int);
            assert(bytes@.subrange(0, *offset as int) =~= magic@ + be16(minor_version) + be16(
                major_version,
            ) + be16(constant_pool_count) + enc_cp_list(constant_pool@));
        }
        ClassFile::read_members(
            bytes,
            offset,
            magic,
            minor_version,
            major_version,
            constant_pool_count,
            constant_pool,
            Ghost(hyp),
            Ghost(w),
        )
    }

    /// Decodes and fully checks a unit: the structural read (with its
    /// embedded magic, version and pool checks), then the whole checking
    /// pass over the decoded value. Loading succeeds on exactly the buffers
    /// that are the wire form of a well-formed unit the checker accepts.
    pub fn load(bytes: &[u8]) -> (r: Result<ClassFile, Error>)
        ensures
            (exists|cf: ClassFile|
                #![trigger enc_class_file(cf)]
                wf_class_file(cf) && enc_class_file(cf) == bytes@
                    && crate::checker::class_file_checked(cf)) ==> r is Ok,
            r is Ok ==> {
                &&& wf_class_file(r->Ok_0)
                &&& enc_class_file(r->Ok_0) == bytes@
                &&& crate::checker::class_file_checked(r->Ok_0)
            },
    {
        let ghost hyp = exists|cf: ClassFile|
            #![trigger enc_class_file(cf)]
            wf_class_file(cf) && enc_class_file(cf) == bytes@
                && crate::checker::class_file_checked(cf);
        let ghost w: ClassFile = choose|cf: ClassFile|
            #![trigger enc_class_file(cf)]
            wf_class_file(cf) && enc_class_file(cf) == bytes@
                && crate::checker::class_file_checked(cf);
        let cf = match ClassFile::read_from_bytes(bytes) {
            Ok(v) => v,
            Err(e) => {
                return Err(e);
            },
        };
        proof {
            if hyp {
                assert(enc_class_file(cf) + Seq::<u8>::empty() =~= enc_class_file(w)
                    + Seq::<u8>::empty());
                lemma_class_file_det(cf, Seq::empty(), w, Seq::empty());
                lemma_checked_names_transfer(cf, w);
            }
        }
        match crate::checker::check_class_file(&cf) {
            Ok(_) => {},
            Err(e) => {
                return Err(e);
            },
        }
        Ok(cf)
    }
}

/// Reads a whole unit from an owned byte buffer; see
/// [`ClassFile::read_from_bytes`] for the contract it decodes under.
pub fn read_class_file(bytes: Vec<u8>) -> (r: Result<ClassFile, Error>)
    ensures
        (exists|cf: ClassFile|
            #![trigger enc_class_file(cf)]
            wf_class_file(cf) && enc_class_file(cf) == bytes@ && crate::checker::version_ok(
                cf.minor_version,
                cf.major_version,
            ) && crate::checker::cp_ok(cf.constant_pool@, cf.major_version)) ==> r is Ok,
        r is Ok ==> {
            &&& wf_class_file(r->Ok_0)
            &&& enc_class_file(r->Ok_0) == bytes@
            &&& crate::checker::version_ok(r->Ok_0.minor_version, r->Ok_0.major_version)
            &&& crate::checker::cp_ok(r->Ok_0.constant_pool@, r->Ok_0.major_version)
        },
{
    ClassFile::read_from_bytes(bytes.as_slice())
}


/// Under a witness whose wire form begins the remaining bytes, a
/// verification-type read is owed success: its tag byte is in range and
/// its operand, if any, fits.
proof fn lemma_vt_ready(b: Seq<u8>, o: int, v: VerificationTypeInfo)
    requires
        0 <= o <= b.len(),
        wf_verification_type(v),
        starts_with(b.skip(o), enc_verification_type(v)),
    ensures
        o < b.len(),
        b[o] <= 8,
        (b[o] == 7 || b[o] == 8) ==> o + 3 <= b.len(),
{
    let e = enc_verification_type(v);
    assert(b.skip(o).subrange(0, e.len() as int) == e);
    match v {
        VerificationTypeInfo::TopVariableInfo { tag } => {
            assert(e =~= seq![tag]);
        },
        VerificationTypeInfo::IntegerVariableInfo { tag } => {
            assert(e =~= seq![tag]);
        },
        VerificationTypeInfo::FloatVariableInfo { tag } => {
            assert(e =~= seq![tag]);
        },
        VerificationTypeInfo::DoubleVariableInfo { tag } => {
            assert(e =~= seq![tag]);
        },
        VerificationTypeInfo::LongVariableInfo { tag } => {
            assert(e =~= seq![tag]);
        },
        VerificationTypeInfo::NullVariableInfo { tag } => {
            assert(e =~= seq![tag]);
        },
        VerificationTypeInfo::UninitializedThisVariableInfo { tag } => {
            assert(e =~= seq![tag]);
        },
        VerificationTypeInfo::ObjectVariableInfo { tag, cpool_index } => {
            assert(e =~= seq![tag] + be16(cpool_index));
            assert(e.len() == 3);
        },
        VerificationTypeInfo::UninitializedVariableInfo { tag, offset } => {
            assert(e =~= seq![tag] + be16(offset));
            assert(e.len() == 3);
        },
    }
    assert(b[o] == b.skip(o)[0]);
    assert(b.skip(o)[0] == b.skip(o).subrange(0, e.len() as int)[0]);
}

/// Under a witness whose wire form begins the remaining bytes, a
/// bootstrap-method read is owed success: its header and argument run fit.
proof fn lemma_bootstrap_ready(b: Seq<u8>, o: int, v: BootstrapMethod)
    requires
        0 <= o <= b.len(),
        wf_bootstrap_method(v),
        starts_with(b.skip(o), enc_bootstrap_method(v)),
    ensures
        o + 4 <= b.len(),
        be16_at(b, o + 2) == v.num_bootstrap_arguments,
        o + 4 + 2 * be16_at(b, o + 2) <= b.len(),
{
    let rem = b.skip(o);
    assert(enc_bootstrap_method(v) =~= be16(v.bootstrap_method_ref) + (be16(
        v.num_bootstrap_arguments,
    ) + enc_u16_list(v.bootstrap_arguments@)));
    lemma_starts_with_cat(
        rem,
        be16(v.bootstrap_method_ref),
        be16(v.num_bootstrap_arguments) + enc_u16_list(v.bootstrap_arguments@),
    );
    lemma_starts_with_cat(
        rem.skip(2),
        be16(v.num_bootstrap_arguments),
        enc_u16_list(v.bootstrap_arguments@),
    );
    assert(rem.skip(2).skip(2) =~= rem.skip(4));
    assert(rem.skip(2)[0] == rem[2] && rem.skip(2)[1] == rem[3]);
    lemma_enc_u16_list_len(v.bootstrap_arguments@);
    assert(rem.skip(2).subrange(0, 2) == be16(v.num_bootstrap_arguments));
    assert(b.subrange(o + 2, o + 4) =~= be16(v.num_bootstrap_arguments));
    lemma_be16_at(b, o + 2, v.num_bootstrap_arguments);
}

/// Under a witness whose wire form begins the remaining bytes, a module
/// export read is owed success.
proof fn lemma_export_ready(b: Seq<u8>, o: int, v: Export)
    requires
        0 <= o <= b.len(),
        wf_export(v),
        starts_with(b.skip(o), enc_export(v)),
    ensures
        o + 6 <= b.len(),
        be16_at(b, o + 4) == v.exports_to_count,
        o + 6 + 2 * be16_at(b, o + 4) <= b.len(),
{
    let rem = b.skip(o);
    assert(enc_export(v) =~= be16(v.exports_index) + (be16(v.exports_flags) + (be16(
        v.exports_to_count,
    ) + enc_u16_list(v.exports_to_index@))));
    lemma_starts_with_cat(
        rem,
        be16(v.exports_index),
        be16(v.exports_flags) + (be16(v.exports_to_count) + enc_u16_list(v.exports_to_index@)),
    );
    lemma_starts_with_cat(
        rem.skip(2),
        be16(v.exports_flags),
        be16(v.exports_to_count) + enc_u16_list(v.exports_to_index@),
    );
    assert(rem.skip(2).skip(2) =~= rem.skip(4));
    lemma_starts_with_cat(rem.skip(4), be16(v.exports_to_count), enc_u16_list(v.exports_to_index@));
    assert(rem.skip(4).skip(2) =~= rem.skip(6));
    lemma_enc_u16_list_len(v.exports_to_index@);
    assert(rem.skip(4).subrange(0, 2) == be16(v.exports_to_count));
    assert(b.subrange(o + 4, o + 6) =~= be16(v.exports_to_count));
    lemma_be16_at(b, o + 4, v.exports_to_count);
}

/// Under a witness whose wire form begins the remaining bytes, a module
/// opening read is owed success.
proof fn lemma_open_ready(b: Seq<u8>, o: int, v: Open)
    requires
        0 <= o <= b.len(),
        wf_open(v),
        starts_with(b.skip(o), enc_open(v)),
    ensures
        o + 6 <= b.len(),
        be16_at(b, o + 4) == v.opens_to_count,
        o + 6 + 2 * be16_at(b, o + 4) <= b.len(),
{
    let rem = b.skip(o);
    assert(enc_open(v) =~= be16(v.opens_index) + (be16(v.opens_flags) + (be16(v.opens_to_count)
        + enc_u16_list(v.opens_to_index@))));
    lemma_starts_with_cat(
        rem,
        be16(v.opens_index),
        be16(v.opens_flags) + (be16(v.opens_to_count) + enc_u16_list(v.opens_to_index@)),
    );
    lemma_starts_with_cat(
        rem.skip(2),
        be16(v.opens_flags),
        be16(v.opens_to_count) + enc_u16_list(v.opens_to_index@),
    );
    assert(rem.skip(2).skip(2) =~= rem.skip(4));
    lemma_starts_with_cat(rem.skip(4), be16(v.opens_to_count), enc_u16_list(v.opens_to_index@));
    assert(rem.skip(4).skip(2) =~= rem.skip(6));
    lemma_enc_u16_list_len(v.opens_to_index@);
    assert(rem.skip(4).subrange(0, 2) == be16(v.opens_to_count));
    assert(b.subrange(o + 4, o + 6) =~= be16(v.opens_to_count));
    lemma_be16_at(b, o + 4, v.opens_to_count);
}

/// Under a witness whose wire form begins the remaining bytes, a module
/// provision read is owed success.
proof fn lemma_provide_ready(b: Seq<u8>, o: int, v: Provide)
    requires
        0 <= o <= b.len(),
        wf_provide(v),
        starts_with(b.skip(o), enc_provide(v)),
    ensures
        o + 4 <= b.len(),
        be16_at(b, o + 2) == v.provides_with_count,
        o + 4 + 2 * be16_at(b, o + 2) <= b.len(),
{
    let rem = b.skip(o);
    assert(enc_provide(v) =~= be16(v.provides_index) + (be16(v.provides_with_count) + enc_u16_list(
        v.provides_with_index@,
    )));
    lemma_starts_with_cat(
        rem,
        be16(v.provides_index),
        be16(v.provides_with_count) + enc_u16_list(v.provides_with_index@),
    );
    lemma_starts_with_cat(
        rem.skip(2),
        be16(v.provides_with_count),
        enc_u16_list(v.provides_with_index@),
    );
    assert(rem.skip(2).skip(2) =~= rem.skip(4));
    lemma_enc_u16_list_len(v.provides_with_index@);
    assert(rem.skip(2).subrange(0, 2) == be16(v.provides_with_count));
    assert(b.subrange(o + 2, o + 4) =~= be16(v.provides_with_count));
    lemma_be16_at(b, o + 2, v.provides_with_count);
}


/// Under a witness whose wire form begins the remaining bytes, a pool-entry
/// read is owed success: the tag byte is the witness's, and the payload of
/// that tag's shape fits.
proof fn lemma_cp_ready(b: Seq<u8>, o: int, v: CpInfo)
    requires
        0 <= o <= b.len(),
        wf_cp_info(v),
        starts_with(b.skip(o), enc_cp_info(v)),
    ensures
        o < b.len(),
        match v {
            CpInfo::Utf8(u) => b[o] == 1 && o + 3 <= b.len() && be16_at(b, o + 1) == u.length && o
                + 3 + u.length <= b.len(),
            CpInfo::Integer(_) => b[o] == 3 && o + 5 <= b.len(),
            CpInfo::Float(_) => b[o] == 4 && o + 5 <= b.len(),
            CpInfo::Long(_) => b[o] == 5 && o + 9 <= b.len(),
            CpInfo::Double(_) => b[o] == 6 && o + 9 <= b.len(),
            CpInfo::Class(_) => b[o] == 7 && o + 3 <= b.len(),
            CpInfo::String(_) => b[o] == 8 && o + 3 <= b.len(),
            CpInfo::Fieldref(_) => b[o] == 9 && o + 5 <= b.len(),
            CpInfo::Methodref(_) => b[o] == 10 && o + 5 <= b.len(),
            CpInfo::InterfaceMethodref(_) => b[o] == 11 && o + 5 <= b.len(),
            CpInfo::NameAndType(_) => b[o] == 12 && o + 5 <= b.len(),
            CpInfo::MethodHandle(_) => b[o] == 15 && o + 4 <= b.len(),
            CpInfo::MethodType(_) => b[o] == 16 && o + 3 <= b.len(),
            CpInfo::Dynamic(_) => b[o] == 17 && o + 5 <= b.len(),
            CpInfo::InvokeDynamic(_) => b[o] == 18 && o + 5 <= b.len(),
            CpInfo::Module(_) => b[o] == 19 && o + 3 <= b.len(),
            CpInfo::Package(_) => b[o] == 20 && o + 3 <= b.len(),
        },
{
    let e = enc_cp_info(v);
    let rem = b.skip(o);
    assert(rem.subrange(0, e.len() as int) == e);
    assert(b[o] == rem[0]);
    assert(rem[0] == rem.subrange(0, e.len() as int)[0]);
    match v {
        CpInfo::Utf8(u) => {
            assert(e =~= seq![1u8] + (be16(u.length) + u.bytes@));
            lemma_starts_with_cat(rem, seq![1u8], be16(u.length) + u.bytes@);
            lemma_starts_with_cat(rem.skip(1), be16(u.length), u.bytes@);
            assert(rem.skip(1).subrange(0, 2) == be16(u.length));
            assert(b.subrange(o + 1, o + 3) =~= be16(u.length));
            lemma_be16_at(b, o + 1, u.length);
            assert(e.len() == 3 + u.bytes@.len());
        },
        _ => {},
    }
}


/// Under a witness whose wire form begins the remaining bytes, a stack-map
/// frame read is owed success: the frame-type byte is the witness's, and
/// every piece its range calls for fits.
proof fn lemma_frame_ready(b: Seq<u8>, o: int, v: StackMapFrame)
    requires
        0 <= o <= b.len(),
        wf_stack_map_frame(v),
        starts_with(b.skip(o), enc_stack_map_frame(v)),
    ensures
        o < b.len(),
        match v {
            StackMapFrame::SameFrame { frame_type } => b[o] == frame_type && frame_type <= 63,
            StackMapFrame::SameLocals1StackItemFrame { frame_type, stack } => {
                &&& b[o] == frame_type
                &&& 64 <= frame_type <= 127
                &&& stack@.len() == 1
                &&& wf_verification_list(stack@)
                &&& starts_with(b.skip(o + 1), enc_verification_list(stack@))
            },
            StackMapFrame::SameLocals1StackItemFrameExtended { frame_type, offset_delta, stack } => {
                &&& b[o] == 247
                &&& o + 3 <= b.len()
                &&& stack@.len() == 1
                &&& wf_verification_list(stack@)
                &&& starts_with(b.skip(o + 3), enc_verification_list(stack@))
            },
            StackMapFrame::ChopFrame { frame_type, .. } => b[o] == frame_type && 248 <= frame_type
                <= 250 && o + 3 <= b.len(),
            StackMapFrame::SameFrameExtended { .. } => b[o] == 251 && o + 3 <= b.len(),
            StackMapFrame::AppendFrame { frame_type, offset_delta, locals } => {
                &&& b[o] == frame_type
                &&& 252 <= frame_type <= 254
                &&& o + 3 <= b.len()
                &&& locals@.len() == frame_type - 251
                &&& wf_verification_list(locals@)
                &&& starts_with(b.skip(o + 3), enc_verification_list(locals@))
            },
            StackMapFrame::FullFrame {
                frame_type,
                offset_delta,
                number_of_locals,
                locals,
                number_of_stack_items,
                stack,
            } => {
                &&& b[o] == 255
                &&& o + 5 <= b.len()
                &&& be16_at(b, o + 3) == number_of_locals
                &&& locals@.len() == number_of_locals
                &&& stack@.len() == number_of_stack_items
                &&& wf_verification_list(locals@)
                &&& wf_verification_list(stack@)
                &&& starts_with(
                    b.skip(o + 5),
                    enc_verification_list(locals@) + (be16(number_of_stack_items)
                        + enc_verification_list(stack@)),
                )
            },
        },
{
    let e = enc_stack_map_frame(v);
    let rem = b.skip(o);
    assert(rem.subrange(0, e.len() as int) == e);
    assert(b[o] == rem[0]);
    assert(rem[0] == rem.subrange(0, e.len() as int)[0]);
    match v {
        StackMapFrame::SameFrame { frame_type } => {
            assert(e =~= seq![frame_type]);
        },
        StackMapFrame::SameLocals1StackItemFrame { frame_type, stack } => {
            assert(e =~= seq![frame_type] + enc_verification_list(stack@));
            lemma_starts_with_cat(rem, seq![frame_type], enc_verification_list(stack@));
            assert(rem.skip(1) =~= b.skip(o + 1));
        },
        StackMapFrame::SameLocals1StackItemFrameExtended { frame_type, offset_delta, stack } => {
            assert(e =~= seq![frame_type] + (be16(offset_delta) + enc_verification_list(stack@)));
            lemma_starts_with_cat(
                rem,
                seq![frame_type],
                be16(offset_delta) + enc_verification_list(stack@),
            );
            lemma_starts_with_cat(rem.skip(1), be16(offset_delta), enc_verification_list(stack@));
            assert(rem.skip(1).skip(2) =~= b.skip(o + 3));
        },
        StackMapFrame::ChopFrame { frame_type, offset_delta } => {
            assert(e =~= seq![frame_type] + be16(offset_delta));
            assert(e.len() == 3);
        },
        StackMapFrame::SameFrameExtended { frame_type, offset_delta } => {
            assert(e =~= seq![frame_type] + be16(offset_delta));
            assert(e.len() == 3);
        },
        StackMapFrame::AppendFrame { frame_type, offset_delta, locals } => {
            assert(e =~= seq![frame_type] + (be16(offset_delta) + enc_verification_list(locals@)));
            lemma_starts_with_cat(
                rem,
                seq![frame_type],
                be16(offset_delta) + enc_verification_list(locals@),
            );
            lemma_starts_with_cat(rem.skip(1), be16(offset_delta), enc_verification_list(locals@));
            assert(rem.skip(1).skip(2) =~= b.skip(o + 3));
        },
        StackMapFrame::FullFrame {
            frame_type,
            offset_delta,
            number_of_locals,
            locals,
            number_of_stack_items,
            stack,
        } => {
            assert(e =~= seq![frame_type] + (be16(offset_delta) + (be16(number_of_locals) + (
            enc_verification_list(locals@) + (be16(number_of_stack_items)
                + enc_verification_list(stack@))))));
            lemma_starts_with_cat(
                rem,
                seq![frame_type],
                be16(offset_delta) + (be16(number_of_locals) + (enc_verification_list(locals@) + (
                be16(number_of_stack_items) + enc_verification_list(stack@)))),
            );
            lemma_starts_with_cat(
                rem.skip(1),
                be16(offset_delta),
                be16(number_of_locals) + (enc_verification_list(locals@) + (be16(
                    number_of_stack_items,
                ) + enc_verification_list(stack@))),
            );
            assert(rem.skip(1).skip(2) =~= rem.skip(3));
            lemma_starts_with_cat(
                rem.skip(3),
                be16(number_of_locals),
                enc_verification_list(locals@) + (be16(number_of_stack_items)
                    + enc_verification_list(stack@)),
            );
            assert(rem.skip(3).subrange(0, 2) == be16(number_of_locals));
            assert(b.subrange(o + 3, o + 5) =~= be16(number_of_locals));
            lemma_be16_at(b, o + 3, number_of_locals);
            assert(rem.skip(3).skip(2) =~= b.skip(o + 5));
        },
    }
}



/// The readiness facts for an executable-code attribute witness: every
/// header field sits where the reader will look, and the nested pieces fit.
#[verifier::rlimit(100)]
#[verifier::spinoff_prover]
proof fn lemma_attribute_ready_code(b: Seq<u8>, o: int, c: CodeAttributeInfo)
    requires
        0 <= o <= b.len(),
        starts_with(b.skip(o), enc_attribute(Attribute::Code(c))),
    ensures
        o + 14 <= b.len(),
        b.subrange(o, o + 2) == be16(c.attribute_name_index),
        b.subrange(o + 2, o + 6) == be32(c.attribute_length),
        b.subrange(o + 10, o + 14) == be32(c.code_length),
        o + 16 + c.code@.len() <= b.len(),
        b.subrange(o + 14 + c.code@.len(), o + 16 + c.code@.len()) == be16(
            c.exception_table_length,
        ),
        o + 18 + c.code@.len() + 8 * c.exception_table@.len() <= b.len(),
        b.subrange(
            o + 16 + c.code@.len() + 8 * c.exception_table@.len(),
            o + 18 + c.code@.len() + 8 * c.exception_table@.len(),
        ) == be16(c.attributes_count),
        starts_with(
            b.skip(o + 18 + c.code@.len() + 8 * c.exception_table@.len()),
            enc_attribute_list(c.attributes@),
        ),
{
    let rem = b.skip(o);
    let e = enc_attribute(Attribute::Code(c));
    assert(rem.subrange(0, e.len() as int) == e);
    let cl = c.code@.len() as int;
            let xl = 8 * c.exception_table@.len() as int;
            let t8 = c.code@ + (be16(c.exception_table_length) + (enc_exception_list(
                c.exception_table@,
            ) + (be16(c.attributes_count) + enc_attribute_list(c.attributes@))));
            assert(e =~= be16(c.attribute_name_index) + (be32(c.attribute_length) + (be16(
                c.max_stack,
            ) + (be16(c.max_locals) + (be32(c.code_length) + t8)))));
            lemma_starts_with_cat(
                rem,
                be16(c.attribute_name_index),
                be32(c.attribute_length) + (be16(c.max_stack) + (be16(c.max_locals) + (be32(
                    c.code_length,
                ) + t8))),
            );
            lemma_starts_with_cat(
                rem.skip(2),
                be32(c.attribute_length),
                be16(c.max_stack) + (be16(c.max_locals) + (be32(c.code_length) + t8)),
            );
            assert(rem.skip(2).skip(4) =~= rem.skip(6));
            lemma_starts_with_cat(
                rem.skip(6),
                be16(c.max_stack),
                be16(c.max_locals) + (be32(c.code_length) + t8),
            );
            assert(rem.skip(6).skip(2) =~= rem.skip(8));
            lemma_starts_with_cat(rem.skip(8), be16(c.max_locals), be32(c.code_length) + t8);
            assert(rem.skip(8).skip(2) =~= rem.skip(10));
            lemma_starts_with_cat(rem.skip(10), be32(c.code_length), t8);
            assert(rem.skip(10).skip(4) =~= rem.skip(14));
            lemma_starts_with_cat(
                rem.skip(14),
                c.code@,
                be16(c.exception_table_length) + (enc_exception_list(c.exception_table@) + (be16(
                    c.attributes_count,
                ) + enc_attribute_list(c.attributes@))),
            );
            assert(rem.skip(14).skip(cl) =~= rem.skip(14 + cl));
            lemma_starts_with_cat(
                rem.skip(14 + cl),
                be16(c.exception_table_length),
                enc_exception_list(c.exception_table@) + (be16(c.attributes_count)
                    + enc_attribute_list(c.attributes@)),
            );
            assert(rem.skip(14 + cl).skip(2) =~= rem.skip(16 + cl));
            lemma_enc_exception_list_len(c.exception_table@);
            lemma_starts_with_cat(
                rem.skip(16 + cl),
                enc_exception_list(c.exception_table@),
                be16(c.attributes_count) + enc_attribute_list(c.attributes@),
            );
            assert(rem.skip(16 + cl).skip(xl) =~= rem.skip(16 + cl + xl));
            lemma_starts_with_cat(
                rem.skip(16 + cl + xl),
                be16(c.attributes_count),
                enc_attribute_list(c.attributes@),
            );
            assert(rem.skip(16 + cl + xl).skip(2) =~= rem.skip(18 + cl + xl));
            assert(b.subrange(o, o + 2) =~= be16(c.attribute_name_index));
            assert(rem.skip(2).subrange(0, 4) == be32(c.attribute_length));
            assert(b.subrange(o + 2, o + 6) =~= be32(c.attribute_length));
            assert(rem.skip(10).subrange(0, 4) == be32(c.code_length));
            assert(b.subrange(o + 10, o + 14) =~= be32(c.code_length));
            assert(rem.skip(14 + cl).subrange(0, 2) == be16(c.exception_table_length));
            assert(b.subrange(o + 14 + cl, o + 16 + cl) =~= be16(c.exception_table_length));
            assert(rem.skip(16 + cl + xl).subrange(0, 2) == be16(c.attributes_count));
            assert(b.subrange(o + 16 + cl + xl, o + 18 + cl + xl) =~= be16(c.attributes_count));
            assert(rem.skip(18 + cl + xl) =~= b.skip(o + 18 + cl + xl));
}

/// The readiness facts for a module attribute witness: the counts up to the
/// export list sit where the reader will look, and the remaining sections
/// follow in order.
#[verifier::rlimit(100)]
#[verifier::spinoff_prover]
proof fn lemma_attribute_ready_module(b: Seq<u8>, o: int, m: ModuleAttribute)
    requires
        0 <= o <= b.len(),
        starts_with(b.skip(o), enc_attribute(Attribute::Module(m))),
    ensures
        o + 16 <= b.len(),
        b.subrange(o, o + 2) == be16(m.attribute_name_index),
        b.subrange(o + 2, o + 6) == be32(m.attribute_length),
        b.subrange(o + 12, o + 14) == be16(m.requires_count),
        o + 16 + 6 * m.requires@.len() <= b.len(),
        b.subrange(o + 14 + 6 * m.requires@.len(), o + 16 + 6 * m.requires@.len()) == be16(
            m.exports_count,
        ),
        starts_with(
            b.skip(o + 16 + 6 * m.requires@.len()),
            enc_export_list(m.exports@) + (be16(m.opens_count) + (enc_open_list(m.opens@) + (be16(
                m.uses_count,
            ) + (enc_u16_list(m.uses_index@) + (be16(m.provides_count) + enc_provide_list(
                m.provides@,
            )))))),
        ),
{
    let rem = b.skip(o);
    let e = enc_attribute(Attribute::Module(m));
    assert(rem.subrange(0, e.len() as int) == e);
    let rl = 6 * m.requires@.len() as int;
            let t7 = enc_export_list(m.exports@) + (be16(m.opens_count) + (enc_open_list(m.opens@)
                + (be16(m.uses_count) + (enc_u16_list(m.uses_index@) + (be16(m.provides_count)
                + enc_provide_list(m.provides@))))));
            assert(e =~= be16(m.attribute_name_index) + (be32(m.attribute_length) + (be16(
                m.module_name_index,
            ) + (be16(m.module_flags) + (be16(m.module_version_index) + (be16(m.requires_count) + (
            enc_require_list(m.requires@) + (be16(m.exports_count) + t7))))))));
            lemma_starts_with_cat(
                rem,
                be16(m.attribute_name_index),
                be32(m.attribute_length) + (be16(m.module_name_index) + (be16(m.module_flags) + (
                be16(m.module_version_index) + (be16(m.requires_count) + (enc_require_list(
                    m.requires@,
                ) + (be16(m.exports_count) + t7)))))),
            );
            lemma_starts_with_cat(
                rem.skip(2),
                be32(m.attribute_length),
                be16(m.module_name_index) + (be16(m.module_flags) + (be16(m.module_version_index)
                    + (be16(m.requires_count) + (enc_require_list(m.requires@) + (be16(
                    m.exports_count,
                ) + t7))))),
            );
            assert(rem.skip(2).skip(4) =~= rem.skip(6));
            lemma_starts_with_cat(
                rem.skip(6),
                be16(m.module_name_index),
                be16(m.module_flags) + (be16(m.module_version_index) + (be16(m.requires_count) + (
                enc_require_list(m.requires@) + (be16(m.exports_count) + t7)))),
            );
            assert(rem.skip(6).skip(2) =~= rem.skip(8));
            lemma_starts_with_cat(
                rem.skip(8),
                be16(m.module_flags),
                be16(m.module_version_index) + (be16(m.requires_count) + (enc_require_list(
                    m.requires@,
                ) + (be16(m.exports_count) + t7))),
            );
            assert(rem.skip(8).skip(2) =~= rem.skip(10));
            lemma_starts_with_cat(
                rem.skip(10),
                be16(m.module_version_index),
                be16(m.requires_count) + (enc_require_list(m.requires@) + (be16(m.exports_count)
                    + t7)),
            );
            assert(rem.skip(10).skip(2) =~= rem.skip(12));
            lemma_starts_with_cat(
                rem.skip(12),
                be16(m.requires_count),
                enc_require_list(m.requires@) + (be16(m.exports_count) + t7),
            );
            assert(rem.skip(12).skip(2) =~= rem.skip(14));
            lemma_enc_require_list_len(m.requires@);
            lemma_starts_with_cat(
                rem.skip(14),
                enc_require_list(m.requires@),
                be16(m.exports_count) + t7,
            );
            assert(rem.skip(14).skip(rl) =~= rem.skip(14 + rl));
            lemma_starts_with_cat(rem.skip(14 + rl), be16(m.exports_count), t7);
            assert(rem.skip(14 + rl).skip(2) =~= rem.skip(16 + rl));
            assert(b.subrange(o, o + 2) =~= be16(m.attribute_name_index));
            assert(rem.skip(2).subrange(0, 4) == be32(m.attribute_length));
            assert(b.subrange(o + 2, o + 6) =~= be32(m.attribute_length));
            assert(rem.skip(12).subrange(0, 2) == be16(m.requires_count));
            assert(b.subrange(o + 12, o + 14) =~= be16(m.requires_count));
            assert(rem.skip(14 + rl).subrange(0, 2) == be16(m.exports_count));
            assert(b.subrange(o + 14 + rl, o + 16 + rl) =~= be16(m.exports_count));
            assert(rem.skip(16 + rl) =~= b.skip(o + 16 + rl));
}



/// The readiness facts for a StackMapTable-shaped attribute witness.
#[verifier::rlimit(100)]
#[verifier::spinoff_prover]
proof fn lemma_attribute_ready_stackmaptable(b: Seq<u8>, o: int, st: StackMapTableAttribute)
    requires
        0 <= o <= b.len(),
        starts_with(b.skip(o), enc_attribute(Attribute::StackMapTable(st))),
    ensures
        o + 8 <= b.len(),
        b.subrange(o, o + 2) == be16(st.attribute_name_index),
        b.subrange(o + 2, o + 6) == be32(st.attribute_length),
        b.subrange(o + 6, o + 8) == be16(st.number_of_entries),
        starts_with(b.skip(o + 8), enc_frame_list(st.entries@)),
{
    let rem = b.skip(o);
    let e = enc_attribute(Attribute::StackMapTable(st));
    assert(rem.subrange(0, e.len() as int) == e);
    assert(e =~= be16(st.attribute_name_index) + (be32(st.attribute_length) + (be16(
                st.number_of_entries,
            ) + enc_frame_list(st.entries@))));
            lemma_starts_with_cat(
                rem,
                be16(st.attribute_name_index),
                be32(st.attribute_length) + (be16(st.number_of_entries) + enc_frame_list(
                    st.entries@,
                )),
            );
            lemma_starts_with_cat(
                rem.skip(2),
                be32(st.attribute_length),
                be16(st.number_of_entries) + enc_frame_list(st.entries@),
            );
            assert(rem.skip(2).skip(4) =~= rem.skip(6));
            lemma_starts_with_cat(rem.skip(6), be16(st.number_of_entries), enc_frame_list(st.entries@));
            assert(rem.skip(6).skip(2) =~= rem.skip(8));
            assert(b.subrange(o, o + 2) =~= be16(st.attribute_name_index));
            assert(rem.skip(2).subrange(0, 4) == be32(st.attribute_length));
            assert(b.subrange(o + 2, o + 6) =~= be32(st.attribute_length));
            assert(rem.skip(6).subrange(0, 2) == be16(st.number_of_entries));
            assert(b.subrange(o + 6, o + 8) =~= be16(st.number_of_entries));
            assert(rem.skip(8) =~= b.skip(o + 8));
}

/// The readiness facts for a BootstrapMethods-shaped attribute witness.
#[verifier::rlimit(100)]
#[verifier::spinoff_prover]
proof fn lemma_attribute_ready_bootstrapmethods(b: Seq<u8>, o: int, bm: BootstrapMethodsAttribute)
    requires
        0 <= o <= b.len(),
        starts_with(b.skip(o), enc_attribute(Attribute::BootstrapMethods(bm))),
    ensures
        o + 8 <= b.len(),
        b.subrange(o, o + 2) == be16(bm.attribute_name_index),
        b.subrange(o + 2, o + 6) == be32(bm.attribute_length),
        b.subrange(o + 6, o + 8) == be16(bm.num_bootstrap_methods),
        starts_with(b.skip(o + 8), enc_bootstrap_list(bm.bootstrap_methods@)),
{
    let rem = b.skip(o);
    let e = enc_attribute(Attribute::BootstrapMethods(bm));
    assert(rem.subrange(0, e.len() as int) == e);
    assert(e =~= be16(bm.attribute_name_index) + (be32(bm.attribute_length) + (be16(
                bm.num_bootstrap_methods,
            ) + enc_bootstrap_list(bm.bootstrap_methods@))));
            lemma_starts_with_cat(
                rem,
                be16(bm.attribute_name_index),
                be32(bm.attribute_length) + (be16(bm.num_bootstrap_methods) + enc_bootstrap_list(
                    bm.bootstrap_methods@,
                )),
            );
            lemma_starts_with_cat(
                rem.skip(2),
                be32(bm.attribute_length),
                be16(bm.num_bootstrap_methods) + enc_bootstrap_list(bm.bootstrap_methods@),
            );
            assert(rem.skip(2).skip(4) =~= rem.skip(6));
            lemma_starts_with_cat(
                rem.skip(6),
                be16(bm.num_bootstrap_methods),
                enc_bootstrap_list(bm.bootstrap_methods@),
            );
            assert(rem.skip(6).skip(2) =~= rem.skip(8));
            assert(b.subrange(o, o + 2) =~= be16(bm.attribute_name_index));
            assert(rem.skip(2).subrange(0, 4) == be32(bm.attribute_length));
            assert(b.subrange(o + 2, o + 6) =~= be32(bm.attribute_length));
            assert(rem.skip(6).subrange(0, 2) == be16(bm.num_bootstrap_methods));
            assert(b.subrange(o + 6, o + 8) =~= be16(bm.num_bootstrap_methods));
            assert(rem.skip(8) =~= b.skip(o + 8));
}

/// The readiness facts for a MethodParameters-shaped attribute witness.
#[verifier::rlimit(100)]
#[verifier::spinoff_prover]
proof fn lemma_attribute_ready_methodparameters(b: Seq<u8>, o: int, mp: MethodParametersAttribute)
    requires
        0 <= o <= b.len(),
        starts_with(b.skip(o), enc_attribute(Attribute::MethodParameters(mp))),
    ensures
        o + 7 <= b.len(),
        b.subrange(o, o + 2) == be16(mp.attribute_name_index),
        b.subrange(o + 2, o + 6) == be32(mp.attribute_length),
        b[o + 6] == mp.parameters_count,
        o + 7 + 4 * mp.parameters@.len() <= b.len(),
{
    let rem = b.skip(o);
    let e = enc_attribute(Attribute::MethodParameters(mp));
    assert(rem.subrange(0, e.len() as int) == e);
    assert(e =~= be16(mp.attribute_name_index) + (be32(mp.attribute_length) + (seq![
                mp.parameters_count,
            ] + enc_parameter_list(mp.parameters@))));
            lemma_starts_with_cat(
                rem,
                be16(mp.attribute_name_index),
                be32(mp.attribute_length) + (seq![mp.parameters_count] + enc_parameter_list(
                    mp.parameters@,
                )),
            );
            lemma_starts_with_cat(
                rem.skip(2),
                be32(mp.attribute_length),
                seq![mp.parameters_count] + enc_parameter_list(mp.parameters@),
            );
            assert(rem.skip(2).skip(4) =~= rem.skip(6));
            lemma_starts_with_cat(rem.skip(6), seq![mp.parameters_count], enc_parameter_list(mp.parameters@));
            lemma_enc_parameter_list_len(mp.parameters@);
            assert(b.subrange(o, o + 2) =~= be16(mp.attribute_name_index));
            assert(rem.skip(2).subrange(0, 4) == be32(mp.attribute_length));
            assert(b.subrange(o + 2, o + 6) =~= be32(mp.attribute_length));
            assert(rem.skip(6).subrange(0, 1)[0] == mp.parameters_count);
            assert(b[o + 6] == rem.skip(6)[0]);
}

/// The readiness facts for a NestMembers-shaped attribute witness.
#[verifier::rlimit(100)]
#[verifier::spinoff_prover]
proof fn lemma_attribute_ready_nestmembers(b: Seq<u8>, o: int, n: NestMembersAttribute)
    requires
        0 <= o <= b.len(),
        starts_with(b.skip(o), enc_attribute(Attribute::NestMembers(n))),
    ensures
        o + 8 <= b.len(),
        b.subrange(o, o + 2) == be16(n.attribute_name_index),
        b.subrange(o + 2, o + 6) == be32(n.attribute_length),
        b.subrange(o + 6, o + 8) == be16(n.number_of_classes),
        o + 8 + 2 * n.classes@.len() <= b.len(),
{
    let rem = b.skip(o);
    let e = enc_attribute(Attribute::NestMembers(n));
    assert(rem.subrange(0, e.len() as int) == e);
    assert(e =~= be16(n.attribute_name_index) + (be32(n.attribute_length) + (be16(
                n.number_of_classes,
            ) + enc_u16_list(n.classes@))));
            lemma_starts_with_cat(
                rem,
                be16(n.attribute_name_index),
                be32(n.attribute_length) + (be16(n.number_of_classes) + enc_u16_list(n.classes@)),
            );
            lemma_starts_with_cat(
                rem.skip(2),
                be32(n.attribute_length),
                be16(n.number_of_classes) + enc_u16_list(n.classes@),
            );
            assert(rem.skip(2).skip(4) =~= rem.skip(6));
            lemma_starts_with_cat(rem.skip(6), be16(n.number_of_classes), enc_u16_list(n.classes@));
            lemma_enc_u16_list_len(n.classes@);
            assert(b.subrange(o, o + 2) =~= be16(n.attribute_name_index));
            assert(rem.skip(2).subrange(0, 4) == be32(n.attribute_length));
            assert(b.subrange(o + 2, o + 6) =~= be32(n.attribute_length));
            assert(rem.skip(6).subrange(0, 2) == be16(n.number_of_classes));
            assert(b.subrange(o + 6, o + 8) =~= be16(n.number_of_classes));
}

/// The readiness facts for a PermittedSubclasses-shaped attribute witness.
#[verifier::rlimit(100)]
#[verifier::spinoff_prover]
proof fn lemma_attribute_ready_permittedsubclasses(b: Seq<u8>, o: int, p: PermittedSubclassesAttribute)
    requires
        0 <= o <= b.len(),
        starts_with(b.skip(o), enc_attribute(Attribute::PermittedSubclasses(p))),
    ensures
        o + 8 <= b.len(),
        b.subrange(o, o + 2) == be16(p.attribute_name_index),
        b.subrange(o + 2, o + 6) == be32(p.attribute_length),
        b.subrange(o + 6, o + 8) == be16(p.number_of_classes),
        o + 8 + 2 * p.classes@.len() <= b.len(),
{
    let rem = b.skip(o);
    let e = enc_attribute(Attribute::PermittedSubclasses(p));
    assert(rem.subrange(0, e.len() as int) == e);
    assert(e =~= be16(p.attribute_name_index) + (be32(p.attribute_length) + (be16(
                p.number_of_classes,
            ) + enc_u16_list(p.classes@))));
            lemma_starts_with_cat(
                rem,
                be16(p.attribute_name_index),
                be32(p.attribute_length) + (be16(p.number_of_classes) + enc_u16_list(p.classes@)),
            );
            lemma_starts_with_cat(
                rem.skip(2),
                be32(p.attribute_length),
                be16(p.number_of_classes) + enc_u16_list(p.classes@),
            );
            assert(rem.skip(2).skip(4) =~= rem.skip(6));
            lemma_starts_with_cat(rem.skip(6), be16(p.number_of_classes), enc_u16_list(p.classes@));
            lemma_enc_u16_list_len(p.classes@);
            assert(b.subrange(o, o + 2) =~= be16(p.attribute_name_index));
            assert(rem.skip(2).subrange(0, 4) == be32(p.attribute_length));
            assert(b.subrange(o + 2, o + 6) =~= be32(p.attribute_length));
            assert(rem.skip(6).subrange(0, 2) == be16(p.number_of_classes));
            assert(b.subrange(o + 6, o + 8) =~= be16(p.number_of_classes));
}

/// Under a witness whose wire form begins the remaining bytes, an
/// attribute read is owed success: the first six bytes carry the witness's
/// name index and declared length, and the payload of the witness's shape
/// fits where the reader will look for it.
#[verifier::rlimit(100)]
#[verifier::spinoff_prover]
proof fn lemma_attribute_ready(pool: Seq<CpInfo>, b: Seq<u8>, o: int, v: Attribute)
    requires
        0 <= o <= b.len(),
        wf_attribute(pool, v),
        starts_with(b.skip(o), enc_attribute(v)),
    ensures
        o + 6 <= b.len(),
        b.subrange(o, o + 2) == be16(spec_attribute_name_index(v)),
        b.subrange(o + 2, o + 6) == be32(spec_attribute_length(v)),
        match v {
            Attribute::General(g) => o + 6 + g.info@.len() <= b.len(),
            Attribute::ConstantValue(_) => o + 8 <= b.len(),
            Attribute::Code(c) => {
                &&& o + 14 <= b.len()
                &&& b.subrange(o + 10, o + 14) == be32(c.code_length)
                &&& o + 16 + c.code@.len() <= b.len()
                &&& b.subrange(o + 14 + c.code@.len(), o + 16 + c.code@.len()) == be16(
                    c.exception_table_length,
                )
                &&& o + 18 + c.code@.len() + 8 * c.exception_table@.len() <= b.len()
                &&& b.subrange(
                    o + 16 + c.code@.len() + 8 * c.exception_table@.len(),
                    o + 18 + c.code@.len() + 8 * c.exception_table@.len(),
                ) == be16(c.attributes_count)
                &&& starts_with(
                    b.skip(o + 18 + c.code@.len() + 8 * c.exception_table@.len()),
                    enc_attribute_list(c.attributes@),
                )
            },
            Attribute::StackMapTable(st) => {
                &&& o + 8 <= b.len()
                &&& b.subrange(o + 6, o + 8) == be16(st.number_of_entries)
                &&& starts_with(b.skip(o + 8), enc_frame_list(st.entries@))
            },
            Attribute::BootstrapMethods(bm) => {
                &&& o + 8 <= b.len()
                &&& b.subrange(o + 6, o + 8) == be16(bm.num_bootstrap_methods)
                &&& starts_with(b.skip(o + 8), enc_bootstrap_list(bm.bootstrap_methods@))
            },
            Attribute::MethodParameters(mp) => {
                &&& o + 7 <= b.len()
                &&& b[o + 6] == mp.parameters_count
                &&& o + 7 + 4 * mp.parameters@.len() <= b.len()
            },
            Attribute::Module(m) => {
                &&& o + 16 <= b.len()
                &&& b.subrange(o + 12, o + 14) == be16(m.requires_count)
                &&& o + 16 + 6 * m.requires@.len() <= b.len()
                &&& b.subrange(
                    o + 14 + 6 * m.requires@.len(),
                    o + 16 + 6 * m.requires@.len(),
                ) == be16(m.exports_count)
                &&& starts_with(
                    b.skip(o + 16 + 6 * m.requires@.len()),
                    enc_export_list(m.exports@) + (be16(m.opens_count) + (enc_open_list(m.opens@)
                        + (be16(m.uses_count) + (enc_u16_list(m.uses_index@) + (be16(
                        m.provides_count,
                    ) + enc_provide_list(m.provides@)))))),
                )
            },
            Attribute::NestHost(_) => o + 8 <= b.len(),
            Attribute::NestMembers(n) => {
                &&& o + 8 <= b.len()
                &&& b.subrange(o + 6, o + 8) == be16(n.number_of_classes)
                &&& o + 8 + 2 * n.classes@.len() <= b.len()
            },
            Attribute::PermittedSubclasses(p) => {
                &&& o + 8 <= b.len()
                &&& b.subrange(o + 6, o + 8) == be16(p.number_of_classes)
                &&& o + 8 + 2 * p.classes@.len() <= b.len()
            },
        },
{
    let rem = b.skip(o);
    let e = enc_attribute(v);
    assert(rem.subrange(0, e.len() as int) == e);
    match v {
        Attribute::General(g) => {
            assert(e =~= be16(g.attribute_name_index) + (be32(g.attribute_length) + g.info@));
            lemma_starts_with_cat(rem, be16(g.attribute_name_index), be32(g.attribute_length) + g.info@);
            lemma_starts_with_cat(rem.skip(2), be32(g.attribute_length), g.info@);
            assert(b.subrange(o, o + 2) =~= be16(g.attribute_name_index));
            assert(rem.skip(2).subrange(0, 4) == be32(g.attribute_length));
            assert(b.subrange(o + 2, o + 6) =~= be32(g.attribute_length));
        },
        Attribute::ConstantValue(c) => {
            assert(e =~= be16(c.attribute_name_index) + (be32(c.attribute_length) + be16(
                c.constantvalue_index,
            )));
            lemma_starts_with_cat(
                rem,
                be16(c.attribute_name_index),
                be32(c.attribute_length) + be16(c.constantvalue_index),
            );
            lemma_starts_with_cat(rem.skip(2), be32(c.attribute_length), be16(c.constantvalue_index));
            assert(b.subrange(o, o + 2) =~= be16(c.attribute_name_index));
            assert(rem.skip(2).subrange(0, 4) == be32(c.attribute_length));
            assert(b.subrange(o + 2, o + 6) =~= be32(c.attribute_length));
        },
        Attribute::Code(c) => {
            lemma_attribute_ready_code(b, o, c);
        },
        Attribute::StackMapTable(st) => {
            lemma_attribute_ready_stackmaptable(b, o, st);
        },
        Attribute::BootstrapMethods(bm) => {
            lemma_attribute_ready_bootstrapmethods(b, o, bm);
        },
        Attribute::MethodParameters(mp) => {
            lemma_attribute_ready_methodparameters(b, o, mp);
        },
        Attribute::Module(m) => {
            lemma_attribute_ready_module(b, o, m);
        },
        Attribute::NestHost(n) => {
            assert(e =~= be16(n.attribute_name_index) + (be32(n.attribute_length) + be16(
                n.host_class_index,
            )));
            lemma_starts_with_cat(
                rem,
                be16(n.attribute_name_index),
                be32(n.attribute_length) + be16(n.host_class_index),
            );
            lemma_starts_with_cat(rem.skip(2), be32(n.attribute_length), be16(n.host_class_index));
            assert(b.subrange(o, o + 2) =~= be16(n.attribute_name_index));
            assert(rem.skip(2).subrange(0, 4) == be32(n.attribute_length));
            assert(b.subrange(o + 2, o + 6) =~= be32(n.attribute_length));
        },
        Attribute::NestMembers(n) => {
            lemma_attribute_ready_nestmembers(b, o, n);
        },
        Attribute::PermittedSubclasses(p) => {
            lemma_attribute_ready_permittedsubclasses(b, o, p);
        },
    }
}


/// The resolved name of a well-formed attribute decides its shape.
proof fn lemma_attribute_shape_of_name(pool: Seq<CpInfo>, v: Attribute, name: Seq<char>)
    requires
        wf_attribute(pool, v),
        cp_text_at(pool, spec_attribute_name_index(v)) == Some(name),
    ensures
        name == "ConstantValue"@ ==> v is ConstantValue,
        name == "Code"@ ==> v is Code,
        name == "StackMapTable"@ ==> v is StackMapTable,
        name == "BootstrapMethods"@ ==> v is BootstrapMethods,
        name == "MethodParameters"@ ==> v is MethodParameters,
        name == "Module"@ ==> v is Module,
        name == "NestHost"@ ==> v is NestHost,
        name == "NestMembers"@ ==> v is NestMembers,
        name == "PermittedSubclasses"@ ==> v is PermittedSubclasses,
        !known_attribute_name(name) ==> v is General,
{
    reveal_strlit("ConstantValue");
    reveal_strlit("Code");
    reveal_strlit("StackMapTable");
    reveal_strlit("BootstrapMethods");
    reveal_strlit("MethodParameters");
    reveal_strlit("Module");
    reveal_strlit("NestHost");
    reveal_strlit("NestMembers");
    reveal_strlit("PermittedSubclasses");
    assert("ConstantValue"@.len() == 13);
    assert("Code"@.len() == 4);
    assert("StackMapTable"@.len() == 13);
    assert("BootstrapMethods"@.len() == 16);
    assert("MethodParameters"@.len() == 16);
    assert("Module"@.len() == 6);
    assert("NestHost"@.len() == 8);
    assert("NestMembers"@.len() == 11);
    assert("PermittedSubclasses"@.len() == 19);
    assert("ConstantValue"@[0] == 'C' && "StackMapTable"@[0] == 'S');
    assert("BootstrapMethods"@[0] == 'B' && "MethodParameters"@[0] == 'M');
}


} // verus!
