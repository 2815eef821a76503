//! The binary writer: the executable counterpart of the `enc_*` wire-form
//! specifications. Encoding a decoded unit produces exactly the byte
//! sequence the specification gives, so a decoded unit re-encodes to
//! exactly the buffer it was read from.

use vstd::prelude::*;

use crate::attribute::{
    Attribute, BootstrapMethod, Export, ExceptionTable, Open, Parameter, Provide, Require,
    StackMapFrame, VerificationTypeInfo,
};
use crate::constant_pool::{
    CpInfo, CONSTANT_CLASS, CONSTANT_DOUBLE, CONSTANT_DYNAMIC, CONSTANT_FIELDREF, CONSTANT_FLOAT,
    CONSTANT_INTEGER, CONSTANT_INTERFACE_METHODREF, CONSTANT_INVOKE_DYNAMIC, CONSTANT_LONG,
    CONSTANT_METHODREF, CONSTANT_METHOD_HANDLE, CONSTANT_METHOD_TYPE, CONSTANT_MODULE,
    CONSTANT_NAME_AND_TYPE, CONSTANT_PACKAGE, CONSTANT_STRING, CONSTANT_UTF8,
};
use crate::encoding::{
    be16, be32, enc_attribute, enc_attribute_list, enc_bootstrap_list, enc_bootstrap_method,
    enc_class_file, enc_cp_info, enc_cp_list, enc_exception_list, enc_exception_table, enc_export,
    enc_export_list, enc_field, enc_field_list, enc_frame_list, enc_method, enc_method_list,
    enc_open, enc_open_list, enc_parameter, enc_parameter_list, enc_provide, enc_provide_list,
    enc_require, enc_require_list, enc_stack_map_frame, enc_u16_list, enc_verification_list,
    enc_verification_type, lemma_enc_attribute_list_push, lemma_enc_bootstrap_list_push,
    lemma_enc_cp_list_push, lemma_enc_exception_list_push, lemma_enc_export_list_push,
    lemma_enc_field_list_push, lemma_enc_frame_list_push, lemma_enc_method_list_push,
    lemma_enc_open_list_push, lemma_enc_parameter_list_push, lemma_enc_provide_list_push,
    lemma_enc_require_list_push, lemma_enc_u16_list_push, lemma_enc_verification_list_push,
};
use crate::root::{ClassFile, FieldsInfo, MethodInfo};

verus! {

/// Appends one byte.
fn write_u8(out: &mut Vec<u8>, v: u8)
    ensures
        final(out)@ == old(out)@ + seq![v],
{
    out.push(v);
    proof {
        assert(out@ =~= old(out)@ + seq![v]);
    }
}

/// Appends the two big-endian bytes of a 16-bit value.
pub fn write_u16(out: &mut Vec<u8>, v: u16)
    ensures
        final(out)@ == old(out)@ + be16(v),
{
    out.push((v / 256) as u8);
    out.push((v % 256) as u8);
    proof {
        assert(out@ =~= old(out)@ + be16(v));
    }
}

/// Appends the four big-endian bytes of a 32-bit value.
pub fn write_u32(out: &mut Vec<u8>, v: u32)
    ensures
        final(out)@ == old(out)@ + be32(v),
{
    write_u16(out, (v / 65536) as u16);
    write_u16(out, (v % 65536) as u16);
    proof {
        assert(out@ =~= old(out)@ + be32(v));
    }
}

/// Appends a raw byte run.
fn write_bytes(out: &mut Vec<u8>, bytes: &Vec<u8>)
    ensures
        final(out)@ == old(out)@ + bytes@,
{
    let mut i: usize = 0;
    while i < bytes.len()
        invariant
            i <= bytes@.len(),
            out@ == old(out)@ + bytes@.take(i as int),
        decreases bytes@.len() - i,
    {
        out.push(bytes[i]);
        proof {
            assert(out@ =~= old(out)@ + bytes@.take(i + 1));
        }
        i = i + 1;
    }
    proof {
        assert(bytes@.take(bytes@.len() as int) =~= bytes@);
    }
}

/// Appends a raw four-byte run.
fn write_n4(out: &mut Vec<u8>, bytes: &[u8; 4])
    ensures
        final(out)@ == old(out)@ + bytes@,
{
    out.push(bytes[0]);
    out.push(bytes[1]);
    out.push(bytes[2]);
    out.push(bytes[3]);
    proof {
        assert(out@ =~= old(out)@ + bytes@);
    }
}

/// Appends the wire form of one record.
fn write_exception_table(out: &mut Vec<u8>, x: &ExceptionTable)
    ensures
        final(out)@ == old(out)@ + enc_exception_table(*x),
{
    write_u16(out, x.start_pc);
    write_u16(out, x.end_pc);
    write_u16(out, x.handler_pc);
    write_u16(out, x.catch_type);
    proof {
        assert(out@ =~= old(out)@ + enc_exception_table(*x));
    }
}

/// Appends the wire form of one record.
fn write_parameter(out: &mut Vec<u8>, x: &Parameter)
    ensures
        final(out)@ == old(out)@ + enc_parameter(*x),
{
    write_u16(out, x.name_index);
    write_u16(out, x.access_flags);
    proof {
        assert(out@ =~= old(out)@ + enc_parameter(*x));
    }
}

/// Appends the wire form of one record.
fn write_require(out: &mut Vec<u8>, x: &Require)
    ensures
        final(out)@ == old(out)@ + enc_require(*x),
{
    write_u16(out, x.requires_index);
    write_u16(out, x.requires_flags);
    write_u16(out, x.requires_version_index);
    proof {
        assert(out@ =~= old(out)@ + enc_require(*x));
    }
}

/// Appends the wire form of every element of the list, in order.
#[verifier::loop_isolation(false)]
fn write_u16s(out: &mut Vec<u8>, items: &Vec<u16>)
    ensures
        final(out)@ == old(out)@ + enc_u16_list(items@),
{
    proof {
        assert(items@.take(0) =~= Seq::<u16>::empty());
        assert(out@ =~= old(out)@ + enc_u16_list(items@.take(0)));
    }
    let mut i: usize = 0;
    while i < items.len()
        invariant
            i <= items@.len(),
            out@ == old(out)@ + enc_u16_list(items@.take(i as int)),
        decreases items@.len() - i,
    {
        write_u16(out, items[i]);
        proof {
            assert(items@.take(i + 1) =~= items@.take(i as int).push(items@[i as int]));
            lemma_enc_u16_list_push(items@.take(i as int), items@[i as int]);
        }
        i = i + 1;
    }
    proof {
        assert(items@.take(items@.len() as int) =~= items@);
    }
}

/// Appends the wire form of every element of the list, in order.
#[verifier::loop_isolation(false)]
fn write_exception_tables(out: &mut Vec<u8>, items: &Vec<ExceptionTable>)
    ensures
        final(out)@ == old(out)@ + enc_exception_list(items@),
{
    proof {
        assert(items@.take(0) =~= Seq::<ExceptionTable>::empty());
        assert(out@ =~= old(out)@ + enc_exception_list(items@.take(0)));
    }
    let mut i: usize = 0;
    while i < items.len()
        invariant
            i <= items@.len(),
            out@ == old(out)@ + enc_exception_list(items@.take(i as int)),
        decreases items@.len() - i,
    {
        write_exception_table(out, &items[i]);
        proof {
            assert(items@.take(i + 1) =~= items@.take(i as int).push(items@[i as int]));
            lemma_enc_exception_list_push(items@.take(i as int), items@[i as int]);
        }
        i = i + 1;
    }
    proof {
        assert(items@.take(items@.len() as int) =~= items@);
    }
}

/// Appends the wire form of every element of the list, in order.
#[verifier::loop_isolation(false)]
fn write_parameters(out: &mut Vec<u8>, items: &Vec<Parameter>)
    ensures
        final(out)@ == old(out)@ + enc_parameter_list(items@),
{
    proof {
        assert(items@.take(0) =~= Seq::<Parameter>::empty());
        assert(out@ =~= old(out)@ + enc_parameter_list(items@.take(0)));
    }
    let mut i: usize = 0;
    while i < items.len()
        invariant
            i <= items@.len(),
            out@ == old(out)@ + enc_parameter_list(items@.take(i as int)),
        decreases items@.len() - i,
    {
        write_parameter(out, &items[i]);
        proof {
            assert(items@.take(i + 1) =~= items@.take(i as int).push(items@[i as int]));
            lemma_enc_parameter_list_push(items@.take(i as int), items@[i as int]);
        }
        i = i + 1;
    }
    proof {
        assert(items@.take(items@.len() as int) =~= items@);
    }
}

/// Appends the wire form of every element of the list, in order.
#[verifier::loop_isolation(false)]
fn write_require_list(out: &mut Vec<u8>, items: &Vec<Require>)
    ensures
        final(out)@ == old(out)@ + enc_require_list(items@),
{
    proof {
        assert(items@.take(0) =~= Seq::<Require>::empty());
        assert(out@ =~= old(out)@ + enc_require_list(items@.take(0)));
    }
    let mut i: usize = 0;
    while i < items.len()
        invariant
            i <= items@.len(),
            out@ == old(out)@ + enc_require_list(items@.take(i as int)),
        decreases items@.len() - i,
    {
        write_require(out, &items[i]);
        proof {
            assert(items@.take(i + 1) =~= items@.take(i as int).push(items@[i as int]));
            lemma_enc_require_list_push(items@.take(i as int), items@[i as int]);
        }
        i = i + 1;
    }
    proof {
        assert(items@.take(items@.len() as int) =~= items@);
    }
}

/// Appends the wire form of one record.
fn write_bootstrap_method(out: &mut Vec<u8>, x: &BootstrapMethod)
    ensures
        final(out)@ == old(out)@ + enc_bootstrap_method(*x),
{
    write_u16(out, x.bootstrap_method_ref);
    write_u16(out, x.num_bootstrap_arguments);
    write_u16s(out, &x.bootstrap_arguments);
    proof {
        assert(out@ =~= old(out)@ + enc_bootstrap_method(*x));
    }
}

/// Appends the wire form of one record.
fn write_export(out: &mut Vec<u8>, x: &Export)
    ensures
        final(out)@ == old(out)@ + enc_export(*x),
{
    write_u16(out, x.exports_index);
    write_u16(out, x.exports_flags);
    write_u16(out, x.exports_to_count);
    write_u16s(out, &x.exports_to_index);
    proof {
        assert(out@ =~= old(out)@ + enc_export(*x));
    }
}

/// Appends the wire form of one record.
fn write_open(out: &mut Vec<u8>, x: &Open)
    ensures
        final(out)@ == old(out)@ + enc_open(*x),
{
    write_u16(out, x.opens_index);
    write_u16(out, x.opens_flags);
    write_u16(out, x.opens_to_count);
    write_u16s(out, &x.opens_to_index);
    proof {
        assert(out@ =~= old(out)@ + enc_open(*x));
    }
}

/// Appends the wire form of one record.
fn write_provide(out: &mut Vec<u8>, x: &Provide)
    ensures
        final(out)@ == old(out)@ + enc_provide(*x),
{
    write_u16(out, x.provides_index);
    write_u16(out, x.provides_with_count);
    write_u16s(out, &x.provides_with_index);
    proof {
        assert(out@ =~= old(out)@ + enc_provide(*x));
    }
}

/// Appends the wire form of every element of the list, in order.
#[verifier::loop_isolation(false)]
fn write_bootstrap_methods(out: &mut Vec<u8>, items: &Vec<BootstrapMethod>)
    ensures
        final(out)@ == old(out)@ + enc_bootstrap_list(items@),
{
    proof {
        assert(items@.take(0) =~= Seq::<BootstrapMethod>::empty());
        assert(out@ =~= old(out)@ + enc_bootstrap_list(items@.take(0)));
    }
    let mut i: usize = 0;
    while i < items.len()
        invariant
            i <= items@.len(),
            out@ == old(out)@ + enc_bootstrap_list(items@.take(i as int)),
        decreases items@.len() - i,
    {
        write_bootstrap_method(out, &items[i]);
        proof {
            assert(items@.take(i + 1) =~= items@.take(i as int).push(items@[i as int]));
            lemma_enc_bootstrap_list_push(items@.take(i as int), items@[i as int]);
        }
        i = i + 1;
    }
    proof {
        assert(items@.take(items@.len() as int) =~= items@);
    }
}

/// Appends the wire form of every element of the list, in order.
#[verifier::loop_isolation(false)]
fn write_export_list(out: &mut Vec<u8>, items: &Vec<Export>)
    ensures
        final(out)@ == old(out)@ + enc_export_list(items@),
{
    proof {
        assert(items@.take(0) =~= Seq::<Export>::empty());
        assert(out@ =~= old(out)@ + enc_export_list(items@.take(0)));
    }
    let mut i: usize = 0;
    while i < items.len()
        invariant
            i <= items@.len(),
            out@ == old(out)@ + enc_export_list(items@.take(i as int)),
        decreases items@.len() - i,
    {
        write_export(out, &items[i]);
        proof {
            assert(items@.take(i + 1) =~= items@.take(i as int).push(items@[i as int]));
            lemma_enc_export_list_push(items@.take(i as int), items@[i as int]);
        }
        i = i + 1;
    }
    proof {
        assert(items@.take(items@.len() as int) =~= items@);
    }
}

/// Appends the wire form of every element of the list, in order.
#[verifier::loop_isolation(false)]
fn write_open_list(out: &mut Vec<u8>, items: &Vec<Open>)
    ensures
        final(out)@ == old(out)@ + enc_open_list(items@),
{
    proof {
        assert(items@.take(0) =~= Seq::<Open>::empty());
        assert(out@ =~= old(out)@ + enc_open_list(items@.take(0)));
    }
    let mut i: usize = 0;
    while i < items.len()
        invariant
            i <= items@.len(),
            out@ == old(out)@ + enc_open_list(items@.take(i as int)),
        decreases items@.len() - i,
    {
        write_open(out, &items[i]);
        proof {
            assert(items@.take(i + 1) =~= items@.take(i as int).push(items@[i as int]));
            lemma_enc_open_list_push(items@.take(i as int), items@[i as int]);
        }
        i = i + 1;
    }
    proof {
        assert(items@.take(items@.len() as int) =~= items@);
    }
}

/// Appends the wire form of every element of the list, in order.
#[verifier::loop_isolation(false)]
fn write_provide_list(out: &mut Vec<u8>, items: &Vec<Provide>)
    ensures
        final(out)@ == old(out)@ + enc_provide_list(items@),
{
    proof {
        assert(items@.take(0) =~= Seq::<Provide>::empty());
        assert(out@ =~= old(out)@ + enc_provide_list(items@.take(0)));
    }
    let mut i: usize = 0;
    while i < items.len()
        invariant
            i <= items@.len(),
            out@ == old(out)@ + enc_provide_list(items@.take(i as int)),
        decreases items@.len() - i,
    {
        write_provide(out, &items[i]);
        proof {
            assert(items@.take(i + 1) =~= items@.take(i as int).push(items@[i as int]));
            lemma_enc_provide_list_push(items@.take(i as int), items@[i as int]);
        }
        i = i + 1;
    }
    proof {
        assert(items@.take(items@.len() as int) =~= items@);
    }
}

/// Appends the wire form of one verification type.
fn write_verification_type(out: &mut Vec<u8>, x: &VerificationTypeInfo)
    ensures
        final(out)@ == old(out)@ + enc_verification_type(*x),
{
    match x {
        VerificationTypeInfo::TopVariableInfo { tag } => write_u8(out, *tag),
        VerificationTypeInfo::IntegerVariableInfo { tag } => write_u8(out, *tag),
        VerificationTypeInfo::FloatVariableInfo { tag } => write_u8(out, *tag),
        VerificationTypeInfo::DoubleVariableInfo { tag } => write_u8(out, *tag),
        VerificationTypeInfo::LongVariableInfo { tag } => write_u8(out, *tag),
        VerificationTypeInfo::NullVariableInfo { tag } => write_u8(out, *tag),
        VerificationTypeInfo::UninitializedThisVariableInfo { tag } => write_u8(out, *tag),
        VerificationTypeInfo::ObjectVariableInfo { tag, cpool_index } => {
            write_u8(out, *tag);
            write_u16(out, *cpool_index);
        },
        VerificationTypeInfo::UninitializedVariableInfo { tag, offset } => {
            write_u8(out, *tag);
            write_u16(out, *offset);
        },
    }
    proof {
        assert(out@ =~= old(out)@ + enc_verification_type(*x));
    }
}

/// Appends the wire form of every element of the list, in order.
#[verifier::loop_isolation(false)]
fn write_verification_types(out: &mut Vec<u8>, items: &Vec<VerificationTypeInfo>)
    ensures
        final(out)@ == old(out)@ + enc_verification_list(items@),
{
    proof {
        assert(items@.take(0) =~= Seq::<VerificationTypeInfo>::empty());
        assert(out@ =~= old(out)@ + enc_verification_list(items@.take(0)));
    }
    let mut i: usize = 0;
    while i < items.len()
        invariant
            i <= items@.len(),
            out@ == old(out)@ + enc_verification_list(items@.take(i as int)),
        decreases items@.len() - i,
    {
        write_verification_type(out, &items[i]);
        proof {
            assert(items@.take(i + 1) =~= items@.take(i as int).push(items@[i as int]));
            lemma_enc_verification_list_push(items@.take(i as int), items@[i as int]);
        }
        i = i + 1;
    }
    proof {
        assert(items@.take(items@.len() as int) =~= items@);
    }
}

/// Appends the wire form of one stack-map frame.
fn write_frame(out: &mut Vec<u8>, x: &StackMapFrame)
    ensures
        final(out)@ == old(out)@ + enc_stack_map_frame(*x),
{
    match x {
        StackMapFrame::SameFrame { frame_type } => write_u8(out, *frame_type),
        StackMapFrame::SameLocals1StackItemFrame { frame_type, stack } => {
            write_u8(out, *frame_type);
            write_verification_types(out, stack);
        },
        StackMapFrame::SameLocals1StackItemFrameExtended { frame_type, offset_delta, stack } => {
            write_u8(out, *frame_type);
            write_u16(out, *offset_delta);
            write_verification_types(out, stack);
        },
        StackMapFrame::ChopFrame { frame_type, offset_delta } => {
            write_u8(out, *frame_type);
            write_u16(out, *offset_delta);
        },
        StackMapFrame::SameFrameExtended { frame_type, offset_delta } => {
            write_u8(out, *frame_type);
            write_u16(out, *offset_delta);
        },
        StackMapFrame::AppendFrame { frame_type, offset_delta, locals } => {
            write_u8(out, *frame_type);
            write_u16(out, *offset_delta);
            write_verification_types(out, locals);
        },
        StackMapFrame::FullFrame {
            frame_type,
            offset_delta,
            number_of_locals,
            locals,
            number_of_stack_items,
            stack,
        } => {
            write_u8(out, *frame_type);
            write_u16(out, *offset_delta);
            write_u16(out, *number_of_locals);
            write_verification_types(out, locals);
            write_u16(out, *number_of_stack_items);
            write_verification_types(out, stack);
        },
    }
    proof {
        assert(out@ =~= old(out)@ + enc_stack_map_frame(*x));
    }
}

/// Appends the wire form of every element of the list, in order.
#[verifier::loop_isolation(false)]
fn write_frames(out: &mut Vec<u8>, items: &Vec<StackMapFrame>)
    ensures
        final(out)@ == old(out)@ + enc_frame_list(items@),
{
    proof {
        assert(items@.take(0) =~= Seq::<StackMapFrame>::empty());
        assert(out@ =~= old(out)@ + enc_frame_list(items@.take(0)));
    }
    let mut i: usize = 0;
    while i < items.len()
        invariant
            i <= items@.len(),
            out@ == old(out)@ + enc_frame_list(items@.take(i as int)),
        decreases items@.len() - i,
    {
        write_frame(out, &items[i]);
        proof {
            assert(items@.take(i + 1) =~= items@.take(i as int).push(items@[i as int]));
            lemma_enc_frame_list_push(items@.take(i as int), items@[i as int]);
        }
        i = i + 1;
    }
    proof {
        assert(items@.take(items@.len() as int) =~= items@);
    }
}

/// Appends the wire form of one pool entry.
pub fn write_cp_info(out: &mut Vec<u8>, x: &CpInfo)
    ensures
        final(out)@ == old(out)@ + enc_cp_info(*x),
{
    match x {
        CpInfo::Utf8(u) => {
            write_u8(out, CONSTANT_UTF8);
            write_u16(out, u.length);
            write_bytes(out, &u.bytes);
        },
        CpInfo::Integer(i) => {
            write_u8(out, CONSTANT_INTEGER);
            write_n4(out, &i.bytes);
        },
        CpInfo::Float(f) => {
            write_u8(out, CONSTANT_FLOAT);
            write_n4(out, &f.bytes);
        },
        CpInfo::Long(l) => {
            write_u8(out, CONSTANT_LONG);
            write_n4(out, &l.high_bytes);
            write_n4(out, &l.low_bytes);
        },
        CpInfo::Double(d) => {
            write_u8(out, CONSTANT_DOUBLE);
            write_n4(out, &d.high_bytes);
            write_n4(out, &d.low_bytes);
        },
        CpInfo::Class(c) => {
            write_u8(out, CONSTANT_CLASS);
            write_u16(out, c.name_index);
        },
        CpInfo::String(s) => {
            write_u8(out, CONSTANT_STRING);
            write_u16(out, s.string_index);
        },
        CpInfo::Fieldref(f) => {
            write_u8(out, CONSTANT_FIELDREF);
            write_u16(out, f.class_index);
            write_u16(out, f.name_and_type_index);
        },
        CpInfo::Methodref(m) => {
            write_u8(out, CONSTANT_METHODREF);
            write_u16(out, m.class_index);
            write_u16(out, m.name_and_type_index);
        },
        CpInfo::InterfaceMethodref(m) => {
            write_u8(out, CONSTANT_INTERFACE_METHODREF);
            write_u16(out, m.class_index);
            write_u16(out, m.name_and_type_index);
        },
        CpInfo::NameAndType(n) => {
            write_u8(out, CONSTANT_NAME_AND_TYPE);
            write_u16(out, n.name_index);
            write_u16(out, n.descriptor_index);
        },
        CpInfo::MethodHandle(m) => {
            write_u8(out, CONSTANT_METHOD_HANDLE);
            write_u8(out, m.reference_kind);
            write_u16(out, m.reference_index);
        },
        CpInfo::MethodType(m) => {
            write_u8(out, CONSTANT_METHOD_TYPE);
            write_u16(out, m.descriptor_index);
        },
        CpInfo::Dynamic(d) => {
            write_u8(out, CONSTANT_DYNAMIC);
            write_u16(out, d.bootstrap_method_attr_index);
            write_u16(out, d.name_and_type_index);
        },
        CpInfo::InvokeDynamic(d) => {
            write_u8(out, CONSTANT_INVOKE_DYNAMIC);
            write_u16(out, d.bootstrap_method_attr_index);
            write_u16(out, d.name_and_type_index);
        },
        CpInfo::Module(m) => {
            write_u8(out, CONSTANT_MODULE);
            write_u16(out, m.name_index);
        },
        CpInfo::Package(p) => {
            write_u8(out, CONSTANT_PACKAGE);
            write_u16(out, p.name_index);
        },
    }
    proof {
        assert(out@ =~= old(out)@ + enc_cp_info(*x));
    }
}

/// Appends the wire form of every element of the list, in order.
#[verifier::loop_isolation(false)]
pub fn write_cp_infos(out: &mut Vec<u8>, items: &Vec<CpInfo>)
    ensures
        final(out)@ == old(out)@ + enc_cp_list(items@),
{
    proof {
        assert(items@.take(0) =~= Seq::<CpInfo>::empty());
        assert(out@ =~= old(out)@ + enc_cp_list(items@.take(0)));
    }
    let mut i: usize = 0;
    while i < items.len()
        invariant
            i <= items@.len(),
            out@ == old(out)@ + enc_cp_list(items@.take(i as int)),
        decreases items@.len() - i,
    {
        write_cp_info(out, &items[i]);
        proof {
            assert(items@.take(i + 1) =~= items@.take(i as int).push(items@[i as int]));
            lemma_enc_cp_list_push(items@.take(i as int), items@[i as int]);
        }
        i = i + 1;
    }
    proof {
        assert(items@.take(items@.len() as int) =~= items@);
    }
}

/// Appends the wire form of one attribute, nested attributes included.
#[verifier::rlimit(100)]
#[verifier::spinoff_prover]
pub fn write_attribute(out: &mut Vec<u8>, x: &Attribute)
    ensures
        final(out)@ == old(out)@ + enc_attribute(*x),
    decreases x,
{
    match x {
        Attribute::General(g) => {
            write_u16(out, g.attribute_name_index);
            write_u32(out, g.attribute_length);
            write_bytes(out, &g.info);
        },
        Attribute::ConstantValue(c) => {
            write_u16(out, c.attribute_name_index);
            write_u32(out, c.attribute_length);
            write_u16(out, c.constantvalue_index);
        },
        Attribute::Code(c) => {
            write_u16(out, c.attribute_name_index);
            write_u32(out, c.attribute_length);
            write_u16(out, c.max_stack);
            write_u16(out, c.max_locals);
            write_u32(out, c.code_length);
            write_bytes(out, &c.code);
            write_u16(out, c.exception_table_length);
            write_exception_tables(out, &c.exception_table);
            write_u16(out, c.attributes_count);
            write_attributes(out, &c.attributes);
        },
        Attribute::StackMapTable(s) => {
            write_u16(out, s.attribute_name_index);
            write_u32(out, s.attribute_length);
            write_u16(out, s.number_of_entries);
            write_frames(out, &s.entries);
        },
        Attribute::BootstrapMethods(b) => {
            write_u16(out, b.attribute_name_index);
            write_u32(out, b.attribute_length);
            write_u16(out, b.num_bootstrap_methods);
            write_bootstrap_methods(out, &b.bootstrap_methods);
        },
        Attribute::MethodParameters(m) => {
            write_u16(out, m.attribute_name_index);
            write_u32(out, m.attribute_length);
            write_u8(out, m.parameters_count);
            write_parameters(out, &m.parameters);
        },
        Attribute::Module(m) => {
            write_u16(out, m.attribute_name_index);
            write_u32(out, m.attribute_length);
            write_u16(out, m.module_name_index);
            write_u16(out, m.module_flags);
            write_u16(out, m.module_version_index);
            write_u16(out, m.requires_count);
            write_require_list(out, &m.requires);
            write_u16(out, m.exports_count);
            write_export_list(out, &m.exports);
            write_u16(out, m.opens_count);
            write_open_list(out, &m.opens);
            write_u16(out, m.uses_count);
            write_u16s(out, &m.uses_index);
            write_u16(out, m.provides_count);
            write_provide_list(out, &m.provides);
        },
        Attribute::NestHost(n) => {
            write_u16(out, n.attribute_name_index);
            write_u32(out, n.attribute_length);
            write_u16(out, n.host_class_index);
        },
        Attribute::NestMembers(n) => {
            write_u16(out, n.attribute_name_index);
            write_u32(out, n.attribute_length);
            write_u16(out, n.number_of_classes);
            write_u16s(out, &n.classes);
        },
        Attribute::PermittedSubclasses(p) => {
            write_u16(out, p.attribute_name_index);
            write_u32(out, p.attribute_length);
            write_u16(out, p.number_of_classes);
            write_u16s(out, &p.classes);
        },
    }
    proof {
        assert(out@ =~= old(out)@ + enc_attribute(*x));
    }
}

/// Appends the wire form of every element of the list, in order.
#[verifier::loop_isolation(false)]
pub fn write_attributes(out: &mut Vec<u8>, items: &Vec<Attribute>)
    ensures
        final(out)@ == old(out)@ + enc_attribute_list(items@),
    decreases items,
{
    proof {
        assert(items@.take(0) =~= Seq::<Attribute>::empty());
        assert(out@ =~= old(out)@ + enc_attribute_list(items@.take(0)));
    }
    let mut i: usize = 0;
    while i < items.len()
        invariant
            i <= items@.len(),
            out@ == old(out)@ + enc_attribute_list(items@.take(i as int)),
        decreases items@.len() - i,
    {
        write_attribute(out, &items[i]);
        proof {
            assert(items@.take(i + 1) =~= items@.take(i as int).push(items@[i as int]));
            lemma_enc_attribute_list_push(items@.take(i as int), items@[i as int]);
        }
        i = i + 1;
    }
    proof {
        assert(items@.take(items@.len() as int) =~= items@);
    }
}

/// Appends the wire form of one record.
fn write_field(out: &mut Vec<u8>, x: &FieldsInfo)
    ensures
        final(out)@ == old(out)@ + enc_field(*x),
{
    write_u16(out, x.access_flags);
    write_u16(out, x.name_index);
    write_u16(out, x.descriptor_index);
    write_u16(out, x.attributes_count);
    write_attributes(out, &x.attributes);
    proof {
        assert(out@ =~= old(out)@ + enc_field(*x));
    }
}

/// Appends the wire form of one record.
fn write_method(out: &mut Vec<u8>, x: &MethodInfo)
    ensures
        final(out)@ == old(out)@ + enc_method(*x),
{
    write_u16(out, x.access_flags);
    write_u16(out, x.name_index);
    write_u16(out, x.descriptor_index);
    write_u16(out, x.attributes_count);
    write_attributes(out, &x.attributes);
    proof {
        assert(out@ =~= old(out)@ + enc_method(*x));
    }
}

/// Appends the wire form of every element of the list, in order.
#[verifier::loop_isolation(false)]
fn write_fields(out: &mut Vec<u8>, items: &Vec<FieldsInfo>)
    ensures
        final(out)@ == old(out)@ + enc_field_list(items@),
{
    proof {
        assert(items@.take(0) =~= Seq::<FieldsInfo>::empty());
        assert(out@ =~= old(out)@ + enc_field_list(items@.take(0)));
    }
    let mut i: usize = 0;
    while i < items.len()
        invariant
            i <= items@.len(),
            out@ == old(out)@ + enc_field_list(items@.take(i as int)),
        decreases items@.len() - i,
    {
        write_field(out, &items[i]);
        proof {
            assert(items@.take(i + 1) =~= items@.take(i as int).push(items@[i as int]));
            lemma_enc_field_list_push(items@.take(i as int), items@[i as int]);
        }
        i = i + 1;
    }
    proof {
        assert(items@.take(items@.len() as int) =~= items@);
    }
}

/// Appends the wire form of every element of the list, in order.
#[verifier::loop_isolation(false)]
fn write_methods(out: &mut Vec<u8>, items: &Vec<MethodInfo>)
    ensures
        final(out)@ == old(out)@ + enc_method_list(items@),
{
    proof {
        assert(items@.take(0) =~= Seq::<MethodInfo>::empty());
        assert(out@ =~= old(out)@ + enc_method_list(items@.take(0)));
    }
    let mut i: usize = 0;
    while i < items.len()
        invariant
            i <= items@.len(),
            out@ == old(out)@ + enc_method_list(items@.take(i as int)),
        decreases items@.len() - i,
    {
        write_method(out, &items[i]);
        proof {
            assert(items@.take(i + 1) =~= items@.take(i as int).push(items@[i as int]));
            lemma_enc_method_list_push(items@.take(i as int), items@[i as int]);
        }
        i = i + 1;
    }
    proof {
        assert(items@.take(items@.len() as int) =~= items@);
    }
}

/// Encodes a whole decoded unit back into its wire form. Together with the
/// reader's contract this closes the round trip: a decoded unit re-encodes
/// to exactly the buffer it was decoded from.
pub fn write_class_file(class_file: &ClassFile) -> (r: Vec<u8>)
    ensures
        r@ == enc_class_file(*class_file),
{
    let mut out: Vec<u8> = Vec::new();
    write_n4(&mut out, &class_file.magic);
    write_u16(&mut out, class_file.minor_version);
    write_u16(&mut out, class_file.major_version);
    write_u16(&mut out, class_file.constant_pool_count);
    write_cp_infos(&mut out, &class_file.constant_pool);
    write_u16(&mut out, class_file.access_flags);
    write_u16(&mut out, class_file.this_class);
    write_u16(&mut out, class_file.super_class);
    write_u16(&mut out, class_file.interfaces_count);
    write_u16s(&mut out, &class_file.interfaces);
    write_u16(&mut out, class_file.fields_count);
    write_fields(&mut out, &class_file.fields);
    write_u16(&mut out, class_file.methods_count);
    write_methods(&mut out, &class_file.methods);
    write_u16(&mut out, class_file.attributes_count);
    write_attributes(&mut out, &class_file.attributes);
    proof {
        assert(out@ =~= enc_class_file(*class_file));
    }
    out
}

} // verus!
