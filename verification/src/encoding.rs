//! The wire form of every record, as specification functions: each `enc_*`
//! gives the exact byte sequence a value occupies in a unit file, and each
//! `wf_*` says when a value's stored count and tag fields agree with its
//! lists and with the pool, as the reader guarantees for everything it
//! returns.
//!
//! All multi-byte integers are big-endian.

use vstd::prelude::*;
use vstd::utf8::{decode_utf8, valid_utf8};

use crate::attribute::{
    Attribute, BootstrapMethod, Export, ExceptionTable, Open, Parameter, Provide, Require,
    StackMapFrame, VerificationTypeInfo,
};
use crate::constant_pool::{
    CpInfo, CONSTANT_CLASS, CONSTANT_DOUBLE, CONSTANT_DYNAMIC, CONSTANT_FIELDREF, CONSTANT_FLOAT,
    CONSTANT_INTEGER, CONSTANT_INTERFACE_METHODREF, CONSTANT_INVOKE_DYNAMIC, CONSTANT_LONG,
    CONSTANT_METHODREF, CONSTANT_METHOD_HANDLE, CONSTANT_METHOD_TYPE, CONSTANT_MODULE,
    CONSTANT_NAME_AND_TYPE, CONSTANT_PACKAGE, CONSTANT_STRING, CONSTANT_UTF8,
};
use crate::root::{ClassFile, FieldsInfo, MethodInfo};

verus! {

/// The two big-endian bytes of a 16-bit value.
pub open spec fn be16(v: u16) -> Seq<u8> {
    seq![(v / 256) as u8, (v % 256) as u8]
}

/// The four big-endian bytes of a 32-bit value: the high half, then the low.
pub open spec fn be32(v: u32) -> Seq<u8> {
    be16((v / 65536) as u16) + be16((v % 65536) as u16)
}

pub proof fn lemma_be16(v: u16, b0: u8, b1: u8)
    requires
        v == b0 as int * 256 + b1 as int,
    ensures
        be16(v) =~= seq![b0, b1],
{
    assert(v as int / 256 == b0 as int && v as int % 256 == b1 as int) by (nonlinear_arith)
        requires
            v as int == b0 as int * 256 + b1 as int,
            (b1 as int) >= 0,
            (b1 as int) < 256,
            (b0 as int) >= 0,
            (b0 as int) < 256,
    ;
}

pub proof fn lemma_be32(v: u32, hi: u16, lo: u16)
    requires
        v == hi as int * 65536 + lo as int,
    ensures
        be32(v) =~= be16(hi) + be16(lo),
{
    assert(v as int / 65536 == hi as int && v as int % 65536 == lo as int) by (nonlinear_arith)
        requires
            v as int == hi as int * 65536 + lo as int,
            (lo as int) >= 0,
            (lo as int) < 65536,
            (hi as int) >= 0,
            (hi as int) < 65536,
    ;
}

/// Splitting a byte range at an interior point.
pub proof fn lemma_subrange_cat(b: Seq<u8>, i: int, j: int, k: int)
    requires
        0 <= i <= j <= k <= b.len(),
    ensures
        b.subrange(i, k) == b.subrange(i, j) + b.subrange(j, k),
{
    assert(b.subrange(i, k) =~= b.subrange(i, j) + b.subrange(j, k));
}

// ---------------------------------------------------------------------------
// Constant pool entries
// ---------------------------------------------------------------------------

/// The wire form of one pool entry: its tag byte, then its fixed or
/// length-prefixed payload.
pub open spec fn enc_cp_info(ci: CpInfo) -> Seq<u8> {
    match ci {
        CpInfo::Utf8(u) => seq![CONSTANT_UTF8] + be16(u.length) + u.bytes@,
        CpInfo::Integer(i) => seq![CONSTANT_INTEGER] + i.bytes@,
        CpInfo::Float(f) => seq![CONSTANT_FLOAT] + f.bytes@,
        CpInfo::Long(l) => seq![CONSTANT_LONG] + l.high_bytes@ + l.low_bytes@,
        CpInfo::Double(d) => seq![CONSTANT_DOUBLE] + d.high_bytes@ + d.low_bytes@,
        CpInfo::Class(c) => seq![CONSTANT_CLASS] + be16(c.name_index),
        CpInfo::String(s) => seq![CONSTANT_STRING] + be16(s.string_index),
        CpInfo::Fieldref(f) => seq![CONSTANT_FIELDREF] + be16(f.class_index) + be16(
            f.name_and_type_index,
        ),
        CpInfo::Methodref(m) => seq![CONSTANT_METHODREF] + be16(m.class_index) + be16(
            m.name_and_type_index,
        ),
        CpInfo::InterfaceMethodref(m) => seq![CONSTANT_INTERFACE_METHODREF] + be16(m.class_index)
            + be16(m.name_and_type_index),
        CpInfo::NameAndType(n) => seq![CONSTANT_NAME_AND_TYPE] + be16(n.name_index) + be16(
            n.descriptor_index,
        ),
        CpInfo::MethodHandle(m) => seq![CONSTANT_METHOD_HANDLE] + seq![m.reference_kind] + be16(
            m.reference_index,
        ),
        CpInfo::MethodType(m) => seq![CONSTANT_METHOD_TYPE] + be16(m.descriptor_index),
        CpInfo::Dynamic(d) => seq![CONSTANT_DYNAMIC] + be16(d.bootstrap_method_attr_index) + be16(
            d.name_and_type_index,
        ),
        CpInfo::InvokeDynamic(d) => seq![CONSTANT_INVOKE_DYNAMIC] + be16(
            d.bootstrap_method_attr_index,
        ) + be16(d.name_and_type_index),
        CpInfo::Module(m) => seq![CONSTANT_MODULE] + be16(m.name_index),
        CpInfo::Package(p) => seq![CONSTANT_PACKAGE] + be16(p.name_index),
    }
}

/// The stored tag byte agrees with the variant, and a text entry's stored
/// length is the length of its byte run.
pub open spec fn wf_cp_info(ci: CpInfo) -> bool {
    match ci {
        CpInfo::Utf8(u) => u.tag == CONSTANT_UTF8 && u.length == u.bytes@.len(),
        CpInfo::Integer(i) => i.tag == CONSTANT_INTEGER,
        CpInfo::Float(f) => f.tag == CONSTANT_FLOAT,
        CpInfo::Long(l) => l.tag == CONSTANT_LONG,
        CpInfo::Double(d) => d.tag == CONSTANT_DOUBLE,
        CpInfo::Class(c) => c.tag == CONSTANT_CLASS,
        CpInfo::String(s) => s.tag == CONSTANT_STRING,
        CpInfo::Fieldref(f) => f.tag == CONSTANT_FIELDREF,
        CpInfo::Methodref(m) => m.tag == CONSTANT_METHODREF,
        CpInfo::InterfaceMethodref(m) => m.tag == CONSTANT_INTERFACE_METHODREF,
        CpInfo::NameAndType(n) => n.tag == CONSTANT_NAME_AND_TYPE,
        CpInfo::MethodHandle(m) => m.tag == CONSTANT_METHOD_HANDLE,
        CpInfo::MethodType(m) => m.tag == CONSTANT_METHOD_TYPE,
        CpInfo::Dynamic(d) => d.tag == CONSTANT_DYNAMIC,
        CpInfo::InvokeDynamic(d) => d.tag == CONSTANT_INVOKE_DYNAMIC,
        CpInfo::Module(m) => m.tag == CONSTANT_MODULE,
        CpInfo::Package(p) => p.tag == CONSTANT_PACKAGE,
    }
}

pub open spec fn enc_cp_list(s: Seq<CpInfo>) -> Seq<u8>
    decreases s.len(),
{
    if s.len() == 0 {
        Seq::empty()
    } else {
        enc_cp_info(s[0]) + enc_cp_list(s.drop_first())
    }
}

pub proof fn lemma_enc_cp_list_push(s: Seq<CpInfo>, x: CpInfo)
    ensures
        enc_cp_list(s.push(x)) == enc_cp_list(s) + enc_cp_info(x),
    decreases s.len(),
{
    assert(s.push(x)[0] == if s.len() == 0 { x } else { s[0] });
    assert(enc_cp_list(s.push(x)) == enc_cp_info(s.push(x)[0]) + enc_cp_list(s.push(x).drop_first()));
    if s.len() == 0 {
        assert(s.push(x).drop_first() =~= Seq::<CpInfo>::empty());
        assert(enc_cp_list(s.push(x)) =~= enc_cp_list(s) + enc_cp_info(x));
    } else {
        assert(s.push(x).drop_first() =~= s.drop_first().push(x));
        lemma_enc_cp_list_push(s.drop_first(), x);
        assert(enc_cp_list(s.push(x)) =~= enc_cp_list(s) + enc_cp_info(x));
    }
}

// ---------------------------------------------------------------------------
// Plain 16-bit index lists
// ---------------------------------------------------------------------------

pub open spec fn enc_u16_list(s: Seq<u16>) -> Seq<u8>
    decreases s.len(),
{
    if s.len() == 0 {
        Seq::empty()
    } else {
        be16(s[0]) + enc_u16_list(s.drop_first())
    }
}

pub proof fn lemma_enc_u16_list_push(s: Seq<u16>, x: u16)
    ensures
        enc_u16_list(s.push(x)) == enc_u16_list(s) + be16(x),
    decreases s.len(),
{
    assert(s.push(x)[0] == if s.len() == 0 { x } else { s[0] });
    assert(enc_u16_list(s.push(x)) == be16(s.push(x)[0]) + enc_u16_list(s.push(x).drop_first()));
    if s.len() == 0 {
        assert(s.push(x).drop_first() =~= Seq::<u16>::empty());
        assert(enc_u16_list(s.push(x)) =~= enc_u16_list(s) + be16(x));
    } else {
        assert(s.push(x).drop_first() =~= s.drop_first().push(x));
        lemma_enc_u16_list_push(s.drop_first(), x);
        assert(enc_u16_list(s.push(x)) =~= enc_u16_list(s) + be16(x));
    }
}

// ---------------------------------------------------------------------------
// Exception tables and stack maps
// ---------------------------------------------------------------------------

pub open spec fn enc_exception_table(e: ExceptionTable) -> Seq<u8> {
    be16(e.start_pc) + be16(e.end_pc) + be16(e.handler_pc) + be16(e.catch_type)
}

pub open spec fn enc_exception_list(s: Seq<ExceptionTable>) -> Seq<u8>
    decreases s.len(),
{
    if s.len() == 0 {
        Seq::empty()
    } else {
        enc_exception_table(s[0]) + enc_exception_list(s.drop_first())
    }
}

pub proof fn lemma_enc_exception_list_push(s: Seq<ExceptionTable>, x: ExceptionTable)
    ensures
        enc_exception_list(s.push(x)) == enc_exception_list(s) + enc_exception_table(x),
    decreases s.len(),
{
    assert(s.push(x)[0] == if s.len() == 0 { x } else { s[0] });
    assert(enc_exception_list(s.push(x)) == enc_exception_table(s.push(x)[0]) + enc_exception_list(s.push(x).drop_first()));
    if s.len() == 0 {
        assert(s.push(x).drop_first() =~= Seq::<ExceptionTable>::empty());
        assert(enc_exception_list(s.push(x)) =~= enc_exception_list(s) + enc_exception_table(x));
    } else {
        assert(s.push(x).drop_first() =~= s.drop_first().push(x));
        lemma_enc_exception_list_push(s.drop_first(), x);
        assert(enc_exception_list(s.push(x)) =~= enc_exception_list(s) + enc_exception_table(x));
    }
}

/// The wire form of one verification type: its tag byte, with a 16-bit
/// operand for the Object and Uninitialized variants.
pub open spec fn enc_verification_type(v: VerificationTypeInfo) -> Seq<u8> {
    match v {
        VerificationTypeInfo::TopVariableInfo { tag } => seq![tag],
        VerificationTypeInfo::IntegerVariableInfo { tag } => seq![tag],
        VerificationTypeInfo::FloatVariableInfo { tag } => seq![tag],
        VerificationTypeInfo::DoubleVariableInfo { tag } => seq![tag],
        VerificationTypeInfo::LongVariableInfo { tag } => seq![tag],
        VerificationTypeInfo::NullVariableInfo { tag } => seq![tag],
        VerificationTypeInfo::UninitializedThisVariableInfo { tag } => seq![tag],
        VerificationTypeInfo::ObjectVariableInfo { tag, cpool_index } => seq![tag] + be16(
            cpool_index,
        ),
        VerificationTypeInfo::UninitializedVariableInfo { tag, offset } => seq![tag] + be16(offset),
    }
}

pub open spec fn wf_verification_type(v: VerificationTypeInfo) -> bool {
    match v {
        VerificationTypeInfo::TopVariableInfo { tag } => tag == 0,
        VerificationTypeInfo::IntegerVariableInfo { tag } => tag == 1,
        VerificationTypeInfo::FloatVariableInfo { tag } => tag == 2,
        VerificationTypeInfo::DoubleVariableInfo { tag } => tag == 3,
        VerificationTypeInfo::LongVariableInfo { tag } => tag == 4,
        VerificationTypeInfo::NullVariableInfo { tag } => tag == 5,
        VerificationTypeInfo::UninitializedThisVariableInfo { tag } => tag == 6,
        VerificationTypeInfo::ObjectVariableInfo { tag, .. } => tag == 7,
        VerificationTypeInfo::UninitializedVariableInfo { tag, .. } => tag == 8,
    }
}

pub open spec fn enc_verification_list(s: Seq<VerificationTypeInfo>) -> Seq<u8>
    decreases s.len(),
{
    if s.len() == 0 {
        Seq::empty()
    } else {
        enc_verification_type(s[0]) + enc_verification_list(s.drop_first())
    }
}

pub proof fn lemma_enc_verification_list_push(s: Seq<VerificationTypeInfo>, x: VerificationTypeInfo)
    ensures
        enc_verification_list(s.push(x)) == enc_verification_list(s) + enc_verification_type(x),
    decreases s.len(),
{
    assert(s.push(x)[0] == if s.len() == 0 { x } else { s[0] });
    assert(enc_verification_list(s.push(x)) == enc_verification_type(s.push(x)[0]) + enc_verification_list(s.push(x).drop_first()));
    if s.len() == 0 {
        assert(s.push(x).drop_first() =~= Seq::<VerificationTypeInfo>::empty());
        assert(enc_verification_list(s.push(x)) =~= enc_verification_list(s) + enc_verification_type(x));
    } else {
        assert(s.push(x).drop_first() =~= s.drop_first().push(x));
        lemma_enc_verification_list_push(s.drop_first(), x);
        assert(enc_verification_list(s.push(x)) =~= enc_verification_list(s) + enc_verification_type(x));
    }
}

pub open spec fn wf_verification_list(s: Seq<VerificationTypeInfo>) -> bool {
    forall|i: int| 0 <= i < s.len() ==> wf_verification_type(#[trigger] s[i])
}

/// The wire form of one stack-map frame: its frame-type byte, then the
/// payload that the frame-type range calls for.
pub open spec fn enc_stack_map_frame(f: StackMapFrame) -> Seq<u8> {
    match f {
        StackMapFrame::SameFrame { frame_type } => seq![frame_type],
        StackMapFrame::SameLocals1StackItemFrame { frame_type, stack } => seq![frame_type]
            + enc_verification_list(stack@),
        StackMapFrame::SameLocals1StackItemFrameExtended { frame_type, offset_delta, stack } => seq![
            frame_type,
        ] + be16(offset_delta) + enc_verification_list(stack@),
        StackMapFrame::ChopFrame { frame_type, offset_delta } => seq![frame_type] + be16(
            offset_delta,
        ),
        StackMapFrame::SameFrameExtended { frame_type, offset_delta } => seq![frame_type] + be16(
            offset_delta,
        ),
        StackMapFrame::AppendFrame { frame_type, offset_delta, locals } => seq![frame_type] + be16(
            offset_delta,
        ) + enc_verification_list(locals@),
        StackMapFrame::FullFrame {
            frame_type,
            offset_delta,
            number_of_locals,
            locals,
            number_of_stack_items,
            stack,
        } => seq![frame_type] + be16(offset_delta) + be16(number_of_locals)
            + enc_verification_list(locals@) + be16(number_of_stack_items)
            + enc_verification_list(stack@),
    }
}

pub open spec fn wf_stack_map_frame(f: StackMapFrame) -> bool {
    match f {
        StackMapFrame::SameFrame { frame_type } => frame_type <= 63,
        StackMapFrame::SameLocals1StackItemFrame { frame_type, stack } => 64 <= frame_type <= 127
            && stack@.len() == 1 && wf_verification_list(stack@),
        StackMapFrame::SameLocals1StackItemFrameExtended { frame_type, stack, .. } => frame_type
            == 247 && stack@.len() == 1 && wf_verification_list(stack@),
        StackMapFrame::ChopFrame { frame_type, .. } => 248 <= frame_type <= 250,
        StackMapFrame::SameFrameExtended { frame_type, .. } => frame_type == 251,
        StackMapFrame::AppendFrame { frame_type, locals, .. } => 252 <= frame_type <= 254
            && locals@.len() == frame_type - 251 && wf_verification_list(locals@),
        StackMapFrame::FullFrame {
            frame_type,
            number_of_locals,
            locals,
            number_of_stack_items,
            stack,
            ..
        } => frame_type == 255 && locals@.len() == number_of_locals && stack@.len()
            == number_of_stack_items && wf_verification_list(locals@) && wf_verification_list(
            stack@,
        ),
    }
}

pub open spec fn enc_frame_list(s: Seq<StackMapFrame>) -> Seq<u8>
    decreases s.len(),
{
    if s.len() == 0 {
        Seq::empty()
    } else {
        enc_stack_map_frame(s[0]) + enc_frame_list(s.drop_first())
    }
}

pub proof fn lemma_enc_frame_list_push(s: Seq<StackMapFrame>, x: StackMapFrame)
    ensures
        enc_frame_list(s.push(x)) == enc_frame_list(s) + enc_stack_map_frame(x),
    decreases s.len(),
{
    assert(s.push(x)[0] == if s.len() == 0 { x } else { s[0] });
    assert(enc_frame_list(s.push(x)) == enc_stack_map_frame(s.push(x)[0]) + enc_frame_list(s.push(x).drop_first()));
    if s.len() == 0 {
        assert(s.push(x).drop_first() =~= Seq::<StackMapFrame>::empty());
        assert(enc_frame_list(s.push(x)) =~= enc_frame_list(s) + enc_stack_map_frame(x));
    } else {
        assert(s.push(x).drop_first() =~= s.drop_first().push(x));
        lemma_enc_frame_list_push(s.drop_first(), x);
        assert(enc_frame_list(s.push(x)) =~= enc_frame_list(s) + enc_stack_map_frame(x));
    }
}

pub open spec fn wf_frame_list(s: Seq<StackMapFrame>) -> bool {
    forall|i: int| 0 <= i < s.len() ==> wf_stack_map_frame(#[trigger] s[i])
}

// ---------------------------------------------------------------------------
// Bootstrap methods, parameters, module records
// ---------------------------------------------------------------------------

pub open spec fn enc_bootstrap_method(b: BootstrapMethod) -> Seq<u8> {
    be16(b.bootstrap_method_ref) + be16(b.num_bootstrap_arguments) + enc_u16_list(
        b.bootstrap_arguments@,
    )
}

pub open spec fn wf_bootstrap_method(b: BootstrapMethod) -> bool {
    b.num_bootstrap_arguments == b.bootstrap_arguments@.len()
}

pub open spec fn enc_bootstrap_list(s: Seq<BootstrapMethod>) -> Seq<u8>
    decreases s.len(),
{
    if s.len() == 0 {
        Seq::empty()
    } else {
        enc_bootstrap_method(s[0]) + enc_bootstrap_list(s.drop_first())
    }
}

pub proof fn lemma_enc_bootstrap_list_push(s: Seq<BootstrapMethod>, x: BootstrapMethod)
    ensures
        enc_bootstrap_list(s.push(x)) == enc_bootstrap_list(s) + enc_bootstrap_method(x),
    decreases s.len(),
{
    assert(s.push(x)[0] == if s.len() == 0 { x } else { s[0] });
    assert(enc_bootstrap_list(s.push(x)) == enc_bootstrap_method(s.push(x)[0]) + enc_bootstrap_list(s.push(x).drop_first()));
    if s.len() == 0 {
        assert(s.push(x).drop_first() =~= Seq::<BootstrapMethod>::empty());
        assert(enc_bootstrap_list(s.push(x)) =~= enc_bootstrap_list(s) + enc_bootstrap_method(x));
    } else {
        assert(s.push(x).drop_first() =~= s.drop_first().push(x));
        lemma_enc_bootstrap_list_push(s.drop_first(), x);
        assert(enc_bootstrap_list(s.push(x)) =~= enc_bootstrap_list(s) + enc_bootstrap_method(x));
    }
}

pub open spec fn enc_parameter(p: Parameter) -> Seq<u8> {
    be16(p.name_index) + be16(p.access_flags)
}

pub open spec fn enc_parameter_list(s: Seq<Parameter>) -> Seq<u8>
    decreases s.len(),
{
    if s.len() == 0 {
        Seq::empty()
    } else {
        enc_parameter(s[0]) + enc_parameter_list(s.drop_first())
    }
}

pub proof fn lemma_enc_parameter_list_push(s: Seq<Parameter>, x: Parameter)
    ensures
        enc_parameter_list(s.push(x)) == enc_parameter_list(s) + enc_parameter(x),
    decreases s.len(),
{
    assert(s.push(x)[0] == if s.len() == 0 { x } else { s[0] });
    assert(enc_parameter_list(s.push(x)) == enc_parameter(s.push(x)[0]) + enc_parameter_list(s.push(x).drop_first()));
    if s.len() == 0 {
        assert(s.push(x).drop_first() =~= Seq::<Parameter>::empty());
        assert(enc_parameter_list(s.push(x)) =~= enc_parameter_list(s) + enc_parameter(x));
    } else {
        assert(s.push(x).drop_first() =~= s.drop_first().push(x));
        lemma_enc_parameter_list_push(s.drop_first(), x);
        assert(enc_parameter_list(s.push(x)) =~= enc_parameter_list(s) + enc_parameter(x));
    }
}

pub open spec fn enc_require(r: Require) -> Seq<u8> {
    be16(r.requires_index) + be16(r.requires_flags) + be16(r.requires_version_index)
}

pub open spec fn enc_require_list(s: Seq<Require>) -> Seq<u8>
    decreases s.len(),
{
    if s.len() == 0 {
        Seq::empty()
    } else {
        enc_require(s[0]) + enc_require_list(s.drop_first())
    }
}

pub proof fn lemma_enc_require_list_push(s: Seq<Require>, x: Require)
    ensures
        enc_require_list(s.push(x)) == enc_require_list(s) + enc_require(x),
    decreases s.len(),
{
    assert(s.push(x)[0] == if s.len() == 0 { x } else { s[0] });
    assert(enc_require_list(s.push(x)) == enc_require(s.push(x)[0]) + enc_require_list(s.push(x).drop_first()));
    if s.len() == 0 {
        assert(s.push(x).drop_first() =~= Seq::<Require>::empty());
        assert(enc_require_list(s.push(x)) =~= enc_require_list(s) + enc_require(x));
    } else {
        assert(s.push(x).drop_first() =~= s.drop_first().push(x));
        lemma_enc_require_list_push(s.drop_first(), x);
        assert(enc_require_list(s.push(x)) =~= enc_require_list(s) + enc_require(x));
    }
}

pub open spec fn enc_export(e: Export) -> Seq<u8> {
    be16(e.exports_index) + be16(e.exports_flags) + be16(e.exports_to_count) + enc_u16_list(
        e.exports_to_index@,
    )
}

pub open spec fn wf_export(e: Export) -> bool {
    e.exports_to_count == e.exports_to_index@.len()
}

pub open spec fn enc_export_list(s: Seq<Export>) -> Seq<u8>
    decreases s.len(),
{
    if s.len() == 0 {
        Seq::empty()
    } else {
        enc_export(s[0]) + enc_export_list(s.drop_first())
    }
}

pub proof fn lemma_enc_export_list_push(s: Seq<Export>, x: Export)
    ensures
        enc_export_list(s.push(x)) == enc_export_list(s) + enc_export(x),
    decreases s.len(),
{
    assert(s.push(x)[0] == if s.len() == 0 { x } else { s[0] });
    assert(enc_export_list(s.push(x)) == enc_export(s.push(x)[0]) + enc_export_list(s.push(x).drop_first()));
    if s.len() == 0 {
        assert(s.push(x).drop_first() =~= Seq::<Export>::empty());
        assert(enc_export_list(s.push(x)) =~= enc_export_list(s) + enc_export(x));
    } else {
        assert(s.push(x).drop_first() =~= s.drop_first().push(x));
        lemma_enc_export_list_push(s.drop_first(), x);
        assert(enc_export_list(s.push(x)) =~= enc_export_list(s) + enc_export(x));
    }
}

pub open spec fn enc_open(o: Open) -> Seq<u8> {
    be16(o.opens_index) + be16(o.opens_flags) + be16(o.opens_to_count) + enc_u16_list(
        o.opens_to_index@,
    )
}

pub open spec fn wf_open(o: Open) -> bool {
    o.opens_to_count == o.opens_to_index@.len()
}

pub open spec fn enc_open_list(s: Seq<Open>) -> Seq<u8>
    decreases s.len(),
{
    if s.len() == 0 {
        Seq::empty()
    } else {
        enc_open(s[0]) + enc_open_list(s.drop_first())
    }
}

pub proof fn lemma_enc_open_list_push(s: Seq<Open>, x: Open)
    ensures
        enc_open_list(s.push(x)) == enc_open_list(s) + enc_open(x),
    decreases s.len(),
{
    assert(s.push(x)[0] == if s.len() == 0 { x } else { s[0] });
    assert(enc_open_list(s.push(x)) == enc_open(s.push(x)[0]) + enc_open_list(s.push(x).drop_first()));
    if s.len() == 0 {
        assert(s.push(x).drop_first() =~= Seq::<Open>::empty());
        assert(enc_open_list(s.push(x)) =~= enc_open_list(s) + enc_open(x));
    } else {
        assert(s.push(x).drop_first() =~= s.drop_first().push(x));
        lemma_enc_open_list_push(s.drop_first(), x);
        assert(enc_open_list(s.push(x)) =~= enc_open_list(s) + enc_open(x));
    }
}

pub open spec fn enc_provide(p: Provide) -> Seq<u8> {
    be16(p.provides_index) + be16(p.provides_with_count) + enc_u16_list(p.provides_with_index@)
}

pub open spec fn wf_provide(p: Provide) -> bool {
    p.provides_with_count == p.provides_with_index@.len()
}

pub open spec fn enc_provide_list(s: Seq<Provide>) -> Seq<u8>
    decreases s.len(),
{
    if s.len() == 0 {
        Seq::empty()
    } else {
        enc_provide(s[0]) + enc_provide_list(s.drop_first())
    }
}

pub proof fn lemma_enc_provide_list_push(s: Seq<Provide>, x: Provide)
    ensures
        enc_provide_list(s.push(x)) == enc_provide_list(s) + enc_provide(x),
    decreases s.len(),
{
    assert(s.push(x)[0] == if s.len() == 0 { x } else { s[0] });
    assert(enc_provide_list(s.push(x)) == enc_provide(s.push(x)[0]) + enc_provide_list(s.push(x).drop_first()));
    if s.len() == 0 {
        assert(s.push(x).drop_first() =~= Seq::<Provide>::empty());
        assert(enc_provide_list(s.push(x)) =~= enc_provide_list(s) + enc_provide(x));
    } else {
        assert(s.push(x).drop_first() =~= s.drop_first().push(x));
        lemma_enc_provide_list_push(s.drop_first(), x);
        assert(enc_provide_list(s.push(x)) =~= enc_provide_list(s) + enc_provide(x));
    }
}

// ---------------------------------------------------------------------------
// Attributes (mutually recursive with their nested lists)
// ---------------------------------------------------------------------------

/// The wire form of one attribute: name index, declared length, then the
/// payload of its shape. An opaque record's payload is its raw bytes.
pub open spec fn enc_attribute(a: Attribute) -> Seq<u8>
    decreases a,
{
    match a {
        Attribute::General(g) => be16(g.attribute_name_index) + be32(g.attribute_length) + g.info@,
        Attribute::ConstantValue(c) => be16(c.attribute_name_index) + be32(c.attribute_length)
            + be16(c.constantvalue_index),
        Attribute::Code(c) => be16(c.attribute_name_index) + be32(c.attribute_length) + be16(
            c.max_stack,
        ) + be16(c.max_locals) + be32(c.code_length) + c.code@ + be16(c.exception_table_length)
            + enc_exception_list(c.exception_table@) + be16(c.attributes_count) + enc_attribute_list(
            c.attributes@,
        ),
        Attribute::StackMapTable(s) => be16(s.attribute_name_index) + be32(s.attribute_length)
            + be16(s.number_of_entries) + enc_frame_list(s.entries@),
        Attribute::BootstrapMethods(b) => be16(b.attribute_name_index) + be32(b.attribute_length)
            + be16(b.num_bootstrap_methods) + enc_bootstrap_list(b.bootstrap_methods@),
        Attribute::MethodParameters(m) => be16(m.attribute_name_index) + be32(m.attribute_length)
            + seq![m.parameters_count] + enc_parameter_list(m.parameters@),
        Attribute::Module(m) => be16(m.attribute_name_index) + be32(m.attribute_length) + be16(
            m.module_name_index,
        ) + be16(m.module_flags) + be16(m.module_version_index) + be16(m.requires_count)
            + enc_require_list(m.requires@) + be16(m.exports_count) + enc_export_list(m.exports@)
            + be16(m.opens_count) + enc_open_list(m.opens@) + be16(m.uses_count) + enc_u16_list(
            m.uses_index@,
        ) + be16(m.provides_count) + enc_provide_list(m.provides@),
        Attribute::NestHost(n) => be16(n.attribute_name_index) + be32(n.attribute_length) + be16(
            n.host_class_index,
        ),
        Attribute::NestMembers(n) => be16(n.attribute_name_index) + be32(n.attribute_length) + be16(
            n.number_of_classes,
        ) + enc_u16_list(n.classes@),
        Attribute::PermittedSubclasses(p) => be16(p.attribute_name_index) + be32(p.attribute_length)
            + be16(p.number_of_classes) + enc_u16_list(p.classes@),
    }
}

pub open spec fn enc_attribute_list(s: Seq<Attribute>) -> Seq<u8>
    decreases s,
{
    if s.len() == 0 {
        Seq::empty()
    } else {
        enc_attribute(s[0]) + enc_attribute_list(s.drop_first())
    }
}

pub proof fn lemma_enc_attribute_list_push(s: Seq<Attribute>, x: Attribute)
    ensures
        enc_attribute_list(s.push(x)) == enc_attribute_list(s) + enc_attribute(x),
    decreases s.len(),
{
    assert(s.push(x)[0] == if s.len() == 0 { x } else { s[0] });
    assert(enc_attribute_list(s.push(x)) == enc_attribute(s.push(x)[0]) + enc_attribute_list(s.push(x).drop_first()));
    if s.len() == 0 {
        assert(s.push(x).drop_first() =~= Seq::<Attribute>::empty());
        assert(enc_attribute_list(s.push(x)) =~= enc_attribute_list(s) + enc_attribute(x));
    } else {
        assert(s.push(x).drop_first() =~= s.drop_first().push(x));
        lemma_enc_attribute_list_push(s.drop_first(), x);
        assert(enc_attribute_list(s.push(x)) =~= enc_attribute_list(s) + enc_attribute(x));
    }
}

// ---------------------------------------------------------------------------
// Attribute well-formedness relative to the pool
// ---------------------------------------------------------------------------

/// The byte run of the text entry at logical slot `idx`, when the slot
/// exists and holds a text entry.
pub open spec fn cp_utf8_at(pool: Seq<CpInfo>, idx: u16) -> Option<Seq<u8>> {
    if 1 <= idx && idx <= pool.len() && pool[idx - 1] is Utf8 {
        Some(pool[idx - 1]->Utf8_0.bytes@)
    } else {
        None
    }
}

/// The decoded text of the entry at `idx`, when it exists, is a text entry,
/// and holds well-formed text.
pub open spec fn cp_text_at(pool: Seq<CpInfo>, idx: u16) -> Option<Seq<char>> {
    match cp_utf8_at(pool, idx) {
        Some(b) => if valid_utf8(b) {
            Some(decode_utf8(b))
        } else {
            None
        },
        None => None,
    }
}

/// Whether `name` is one of the attribute names this decoder gives a shape.
pub open spec fn known_attribute_name(name: Seq<char>) -> bool {
    ||| name == "ConstantValue"@
    ||| name == "Code"@
    ||| name == "StackMapTable"@
    ||| name == "BootstrapMethods"@
    ||| name == "MethodParameters"@
    ||| name == "Module"@
    ||| name == "NestHost"@
    ||| name == "NestMembers"@
    ||| name == "PermittedSubclasses"@
}

/// The attribute's shape agrees with its resolved name, every stored count
/// equals the length of the list beside it, and every nested attribute is
/// well-formed in turn.
pub open spec fn wf_attribute(pool: Seq<CpInfo>, a: Attribute) -> bool
    decreases a,
{
    match a {
        Attribute::General(g) => {
            &&& cp_text_at(pool, g.attribute_name_index) is Some
            &&& !known_attribute_name(cp_text_at(pool, g.attribute_name_index)->Some_0)
            &&& g.info@.len() == g.attribute_length
        },
        Attribute::ConstantValue(c) => cp_text_at(pool, c.attribute_name_index) == Some(
            "ConstantValue"@,
        ),
        Attribute::Code(c) => {
            &&& cp_text_at(pool, c.attribute_name_index) == Some("Code"@)
            &&& c.code_length == c.code@.len()
            &&& c.exception_table_length == c.exception_table@.len()
            &&& c.attributes_count == c.attributes@.len()
            &&& wf_attribute_list(pool, c.attributes@)
        },
        Attribute::StackMapTable(s) => {
            &&& cp_text_at(pool, s.attribute_name_index) == Some("StackMapTable"@)
            &&& s.number_of_entries == s.entries@.len()
            &&& wf_frame_list(s.entries@)
        },
        Attribute::BootstrapMethods(b) => {
            &&& cp_text_at(pool, b.attribute_name_index) == Some("BootstrapMethods"@)
            &&& b.num_bootstrap_methods == b.bootstrap_methods@.len()
            &&& forall|i: int|
                0 <= i < b.bootstrap_methods@.len() ==> wf_bootstrap_method(
                    #[trigger] b.bootstrap_methods@[i],
                )
        },
        Attribute::MethodParameters(m) => {
            &&& cp_text_at(pool, m.attribute_name_index) == Some("MethodParameters"@)
            &&& m.parameters_count == m.parameters@.len()
        },
        Attribute::Module(m) => {
            &&& cp_text_at(pool, m.attribute_name_index) == Some("Module"@)
            &&& m.requires_count == m.requires@.len()
            &&& m.exports_count == m.exports@.len()
            &&& forall|i: int| 0 <= i < m.exports@.len() ==> wf_export(#[trigger] m.exports@[i])
            &&& m.opens_count == m.opens@.len()
            &&& forall|i: int| 0 <= i < m.opens@.len() ==> wf_open(#[trigger] m.opens@[i])
            &&& m.uses_count == m.uses_index@.len()
            &&& m.provides_count == m.provides@.len()
            &&& forall|i: int| 0 <= i < m.provides@.len() ==> wf_provide(#[trigger] m.provides@[i])
        },
        Attribute::NestHost(n) => cp_text_at(pool, n.attribute_name_index) == Some("NestHost"@),
        Attribute::NestMembers(n) => {
            &&& cp_text_at(pool, n.attribute_name_index) == Some("NestMembers"@)
            &&& n.number_of_classes == n.classes@.len()
        },
        Attribute::PermittedSubclasses(p) => {
            &&& cp_text_at(pool, p.attribute_name_index) == Some("PermittedSubclasses"@)
            &&& p.number_of_classes == p.classes@.len()
        },
    }
}

pub open spec fn wf_attribute_list(pool: Seq<CpInfo>, s: Seq<Attribute>) -> bool
    decreases s,
{
    if s.len() == 0 {
        true
    } else {
        wf_attribute(pool, s[0]) && wf_attribute_list(pool, s.drop_first())
    }
}

pub proof fn lemma_wf_attribute_list_push(pool: Seq<CpInfo>, s: Seq<Attribute>, x: Attribute)
    ensures
        wf_attribute_list(pool, s.push(x)) == (wf_attribute_list(pool, s) && wf_attribute(pool, x)),
    decreases s.len(),
{
    assert(s.push(x)[0] == if s.len() == 0 { x } else { s[0] });
    assert(wf_attribute_list(pool, s.push(x)) == (wf_attribute(pool, s.push(x)[0])
        && wf_attribute_list(pool, s.push(x).drop_first())));
    if s.len() == 0 {
        assert(s.push(x).drop_first() =~= Seq::<Attribute>::empty());
    } else {
        assert(s.push(x).drop_first() =~= s.drop_first().push(x));
        lemma_wf_attribute_list_push(pool, s.drop_first(), x);
    }
}

// ---------------------------------------------------------------------------
// Fields, methods, and the whole unit
// ---------------------------------------------------------------------------

pub open spec fn enc_field(f: FieldsInfo) -> Seq<u8> {
    be16(f.access_flags) + be16(f.name_index) + be16(f.descriptor_index) + be16(f.attributes_count)
        + enc_attribute_list(f.attributes@)
}

pub open spec fn wf_field(pool: Seq<CpInfo>, f: FieldsInfo) -> bool {
    f.attributes_count == f.attributes@.len() && wf_attribute_list(pool, f.attributes@)
}

pub open spec fn enc_field_list(s: Seq<FieldsInfo>) -> Seq<u8>
    decreases s.len(),
{
    if s.len() == 0 {
        Seq::empty()
    } else {
        enc_field(s[0]) + enc_field_list(s.drop_first())
    }
}

pub proof fn lemma_enc_field_list_push(s: Seq<FieldsInfo>, x: FieldsInfo)
    ensures
        enc_field_list(s.push(x)) == enc_field_list(s) + enc_field(x),
    decreases s.len(),
{
    assert(s.push(x)[0] == if s.len() == 0 { x } else { s[0] });
    assert(enc_field_list(s.push(x)) == enc_field(s.push(x)[0]) + enc_field_list(s.push(x).drop_first()));
    if s.len() == 0 {
        assert(s.push(x).drop_first() =~= Seq::<FieldsInfo>::empty());
        assert(enc_field_list(s.push(x)) =~= enc_field_list(s) + enc_field(x));
    } else {
        assert(s.push(x).drop_first() =~= s.drop_first().push(x));
        lemma_enc_field_list_push(s.drop_first(), x);
        assert(enc_field_list(s.push(x)) =~= enc_field_list(s) + enc_field(x));
    }
}

pub open spec fn enc_method(m: MethodInfo) -> Seq<u8> {
    be16(m.access_flags) + be16(m.name_index) + be16(m.descriptor_index) + be16(m.attributes_count)
        + enc_attribute_list(m.attributes@)
}

pub open spec fn wf_method(pool: Seq<CpInfo>, m: MethodInfo) -> bool {
    m.attributes_count == m.attributes@.len() && wf_attribute_list(pool, m.attributes@)
}

pub open spec fn enc_method_list(s: Seq<MethodInfo>) -> Seq<u8>
    decreases s.len(),
{
    if s.len() == 0 {
        Seq::empty()
    } else {
        enc_method(s[0]) + enc_method_list(s.drop_first())
    }
}

pub proof fn lemma_enc_method_list_push(s: Seq<MethodInfo>, x: MethodInfo)
    ensures
        enc_method_list(s.push(x)) == enc_method_list(s) + enc_method(x),
    decreases s.len(),
{
    assert(s.push(x)[0] == if s.len() == 0 { x } else { s[0] });
    assert(enc_method_list(s.push(x)) == enc_method(s.push(x)[0]) + enc_method_list(s.push(x).drop_first()));
    if s.len() == 0 {
        assert(s.push(x).drop_first() =~= Seq::<MethodInfo>::empty());
        assert(enc_method_list(s.push(x)) =~= enc_method_list(s) + enc_method(x));
    } else {
        assert(s.push(x).drop_first() =~= s.drop_first().push(x));
        lemma_enc_method_list_push(s.drop_first(), x);
        assert(enc_method_list(s.push(x)) =~= enc_method_list(s) + enc_method(x));
    }
}

/// The magic marker that every unit file begins with.
pub open spec fn spec_magic() -> Seq<u8> {
    seq![0xca, 0xfe, 0xba, 0xbe]
}

/// The wire form of the whole decoded unit, in file order.
pub open spec fn enc_class_file(cf: ClassFile) -> Seq<u8> {
    cf.magic@ + be16(cf.minor_version) + be16(cf.major_version) + be16(cf.constant_pool_count)
        + enc_cp_list(cf.constant_pool@) + be16(cf.access_flags) + be16(cf.this_class) + be16(
        cf.super_class,
    ) + be16(cf.interfaces_count) + enc_u16_list(cf.interfaces@) + be16(cf.fields_count)
        + enc_field_list(cf.fields@) + be16(cf.methods_count) + enc_method_list(cf.methods@) + be16(
        cf.attributes_count,
    ) + enc_attribute_list(cf.attributes@)
}

pub open spec fn wf_cp_list(s: Seq<CpInfo>) -> bool {
    forall|i: int| 0 <= i < s.len() ==> wf_cp_info(#[trigger] s[i])
}

/// Every stored count of the unit agrees with its list, every tag with its
/// variant, and every attribute's shape with the pool entry its name index
/// resolves to.
pub open spec fn wf_class_file(cf: ClassFile) -> bool {
    &&& cf.magic@ == spec_magic()
    &&& cf.constant_pool_count >= 1
    &&& cf.constant_pool@.len() == cf.constant_pool_count - 1
    &&& wf_cp_list(cf.constant_pool@)
    &&& cf.interfaces_count == cf.interfaces@.len()
    &&& cf.fields_count == cf.fields@.len()
    &&& forall|i: int|
        0 <= i < cf.fields@.len() ==> wf_field(cf.constant_pool@, #[trigger] cf.fields@[i])
    &&& cf.methods_count == cf.methods@.len()
    &&& forall|i: int|
        0 <= i < cf.methods@.len() ==> wf_method(cf.constant_pool@, #[trigger] cf.methods@[i])
    &&& cf.attributes_count == cf.attributes@.len()
    &&& wf_attribute_list(cf.constant_pool@, cf.attributes@)
}


/// The unsigned value of four big-endian bytes.
pub open spec fn be_val32(b: Seq<u8>) -> int
    recommends
        b.len() == 4,
{
    b[0] * 16777216 + b[1] * 65536 + b[2] * 256 + b[3]
}

/// The signed 32-bit constant held by four big-endian bytes, two's complement.
pub open spec fn be_i32(b: Seq<u8>) -> int
    recommends
        b.len() == 4,
{
    if be_val32(b) >= 0x8000_0000 {
        be_val32(b) - 0x1_0000_0000
    } else {
        be_val32(b)
    }
}

/// The signed 64-bit constant held by a big-endian high and low word pair,
/// two's complement.
pub open spec fn be_i64(hi: Seq<u8>, lo: Seq<u8>) -> int
    recommends
        hi.len() == 4,
        lo.len() == 4,
{
    if be_val32(hi) * 0x1_0000_0000 + be_val32(lo) >= 0x8000_0000_0000_0000 {
        be_val32(hi) * 0x1_0000_0000 + be_val32(lo) - 0x1_0000_0000_0000_0000
    } else {
        be_val32(hi) * 0x1_0000_0000 + be_val32(lo)
    }
}


pub open spec fn wf_bootstrap_list_all(s: Seq<BootstrapMethod>) -> bool {
    forall|i: int| 0 <= i < s.len() ==> wf_bootstrap_method(#[trigger] s[i])
}

pub open spec fn wf_export_list_all(s: Seq<Export>) -> bool {
    forall|i: int| 0 <= i < s.len() ==> wf_export(#[trigger] s[i])
}

pub open spec fn wf_open_list_all(s: Seq<Open>) -> bool {
    forall|i: int| 0 <= i < s.len() ==> wf_open(#[trigger] s[i])
}

pub open spec fn wf_provide_list_all(s: Seq<Provide>) -> bool {
    forall|i: int| 0 <= i < s.len() ==> wf_provide(#[trigger] s[i])
}


/// `b` begins with the bytes of `p`.
pub open spec fn starts_with(b: Seq<u8>, p: Seq<u8>) -> bool {
    p.len() <= b.len() && b.subrange(0, p.len() as int) == p
}

/// A buffer beginning with a concatenation begins with its first part, and
/// what follows that part begins with the second.
pub proof fn lemma_starts_with_cat(b: Seq<u8>, p: Seq<u8>, q: Seq<u8>)
    requires
        starts_with(b, p + q),
    ensures
        starts_with(b, p),
        starts_with(b.skip(p.len() as int), q),
{
    let n = p.len() as int;
    let m = q.len() as int;
    assert(forall|i: int| 0 <= i < n + m ==> b[i] == (p + q)[i]) by {
        assert(forall|i: int|
            0 <= i < n + m ==> b[i] == #[trigger] b.subrange(0, n + m)[i] && b.subrange(0, n + m)[i]
                == (p + q)[i]);
    }
    assert(b.subrange(0, n) =~= p);
    assert(b.skip(n).subrange(0, m) =~= q);
}

/// A buffer splits as the prefix it begins with, then the rest.
pub proof fn lemma_starts_with_split(b: Seq<u8>, p: Seq<u8>)
    requires
        starts_with(b, p),
    ensures
        b == p + b.skip(p.len() as int),
{
    assert(b =~= p + b.skip(p.len() as int));
}


/// The unsigned value of the two big-endian bytes at position `i`.
pub open spec fn be16_at(b: Seq<u8>, i: int) -> int
    recommends
        0 <= i && i + 2 <= b.len(),
{
    b[i] * 256 + b[i + 1]
}

/// A 16-bit value read from a buffer equals the value of the bytes there.
pub proof fn lemma_be16_at(b: Seq<u8>, i: int, v: u16)
    requires
        0 <= i,
        i + 2 <= b.len(),
        be16(v) == b.subrange(i, i + 2),
    ensures
        v == be16_at(b, i),
{
    assert(b[i] == be16(v)[0] && b[i + 1] == be16(v)[1]);
    assert(v == 256 * (v / 256) + v % 256);
}


/// What follows a leading concatenand.
pub proof fn lemma_skip_of_cat(a: Seq<u8>, b: Seq<u8>)
    ensures
        (a + b).skip(a.len() as int) == b,
{
    assert((a + b).skip(a.len() as int) =~= b);
}

/// A 16-bit list's wire form is two bytes per element.
pub proof fn lemma_enc_u16_list_len(s: Seq<u16>)
    ensures
        enc_u16_list(s).len() == 2 * s.len(),
    decreases s.len(),
{
    if s.len() > 0 {
        lemma_enc_u16_list_len(s.drop_first());
    }
}

/// An exception-table list's wire form is eight bytes per row.
pub proof fn lemma_enc_exception_list_len(s: Seq<ExceptionTable>)
    ensures
        enc_exception_list(s).len() == 8 * s.len(),
    decreases s.len(),
{
    if s.len() > 0 {
        lemma_enc_exception_list_len(s.drop_first());
    }
}

/// A parameter list's wire form is four bytes per row.
pub proof fn lemma_enc_parameter_list_len(s: Seq<Parameter>)
    ensures
        enc_parameter_list(s).len() == 4 * s.len(),
    decreases s.len(),
{
    if s.len() > 0 {
        lemma_enc_parameter_list_len(s.drop_first());
    }
}

/// A requirement list's wire form is six bytes per row.
pub proof fn lemma_enc_require_list_len(s: Seq<Require>)
    ensures
        enc_require_list(s).len() == 6 * s.len(),
    decreases s.len(),
{
    if s.len() > 0 {
        lemma_enc_require_list_len(s.drop_first());
    }
}


/// Equal two-byte wire forms carry equal values.
pub proof fn lemma_be16_inj(a: u16, b: u16)
    requires
        be16(a) == be16(b),
    ensures
        a == b,
{
    assert(a == 256 * (a / 256) + a % 256);
    assert(b == 256 * (b / 256) + b % 256);
    assert(be16(a)[0] == be16(b)[0] && be16(a)[1] == be16(b)[1]);
}

/// Equal four-byte wire forms carry equal values.
pub proof fn lemma_be32_inj(a: u32, b: u32)
    requires
        be32(a) == be32(b),
    ensures
        a == b,
{
    lemma_cat_halves(be16((a / 65536) as u16), be16((a % 65536) as u16), be16((b / 65536) as u16), be16((b % 65536) as u16));
    lemma_be16_inj((a / 65536) as u16, (b / 65536) as u16);
    lemma_be16_inj((a % 65536) as u16, (b % 65536) as u16);
    assert(a == 65536 * (a / 65536) + a % 65536);
    assert(b == 65536 * (b / 65536) + b % 65536);
}

/// Concatenations of equally long halves are equal piecewise.
proof fn lemma_cat_halves(x1: Seq<u8>, y1: Seq<u8>, x2: Seq<u8>, y2: Seq<u8>)
    requires
        x1.len() == x2.len(),
        x1 + y1 == x2 + y2,
    ensures
        x1 == x2,
        y1 == y2,
{
    assert((x1 + y1).len() == x1.len() + y1.len());
    assert((x2 + y2).len() == x2.len() + y2.len());
    assert(y1.len() == y2.len());
    assert forall|i: int| 0 <= i < x1.len() implies x1[i] == x2[i] by {
        assert((x1 + y1)[i] == x1[i]);
        assert((x2 + y2)[i] == x2[i]);
    }
    assert(x1 =~= x2);
    assert forall|i: int| 0 <= i < y1.len() implies y1[i] == y2[i] by {
        assert((x1 + y1)[x1.len() + i] == y1[i]);
        assert((x2 + y2)[x2.len() + i] == y2[i]);
    }
    assert(y1 =~= y2);
}


// ---------------------------------------------------------------------------
// The unit's wire form, decomposed section by section from the pool on
// ---------------------------------------------------------------------------

/// Everything that follows the pool section in a unit's wire form.
pub open spec fn enc_after_pool(cf: ClassFile) -> Seq<u8> {
    be16(cf.access_flags) + enc_after_access(cf)
}

/// Everything that follows the membership flags.
pub open spec fn enc_after_access(cf: ClassFile) -> Seq<u8> {
    be16(cf.this_class) + enc_after_this(cf)
}

/// Everything that follows the self-type reference.
pub open spec fn enc_after_this(cf: ClassFile) -> Seq<u8> {
    be16(cf.super_class) + enc_after_super(cf)
}

/// Everything that follows the parent-type reference.
pub open spec fn enc_after_super(cf: ClassFile) -> Seq<u8> {
    be16(cf.interfaces_count) + enc_after_interface_count(cf)
}

/// Everything that follows the interface count.
pub open spec fn enc_after_interface_count(cf: ClassFile) -> Seq<u8> {
    enc_u16_list(cf.interfaces@) + enc_after_interfaces(cf)
}

/// Everything that follows the interface list.
pub open spec fn enc_after_interfaces(cf: ClassFile) -> Seq<u8> {
    be16(cf.fields_count) + enc_after_field_count(cf)
}

/// Everything that follows the field count.
pub open spec fn enc_after_field_count(cf: ClassFile) -> Seq<u8> {
    enc_field_list(cf.fields@) + enc_after_fields(cf)
}

/// Everything that follows the field list.
pub open spec fn enc_after_fields(cf: ClassFile) -> Seq<u8> {
    be16(cf.methods_count) + enc_after_method_count(cf)
}

/// Everything that follows the method count.
pub open spec fn enc_after_method_count(cf: ClassFile) -> Seq<u8> {
    enc_method_list(cf.methods@) + enc_after_methods(cf)
}

/// Everything that follows the method list.
pub open spec fn enc_after_methods(cf: ClassFile) -> Seq<u8> {
    be16(cf.attributes_count) + enc_attribute_list(cf.attributes@)
}

/// The whole wire form, regrouped as the header sections followed by the
/// pool and everything after it.
#[verifier::rlimit(100)]
#[verifier::spinoff_prover]
pub proof fn lemma_enc_class_file_sections(cf: ClassFile)
    ensures
        enc_class_file(cf) == cf.magic@ + (be16(cf.minor_version) + (be16(cf.major_version) + (
        be16(cf.constant_pool_count) + (enc_cp_list(cf.constant_pool@) + enc_after_pool(cf))))),
{
    assert(enc_class_file(cf) =~= cf.magic@ + (be16(cf.minor_version) + (be16(cf.major_version)
        + (be16(cf.constant_pool_count) + (enc_cp_list(cf.constant_pool@) + (be16(cf.access_flags)
        + (be16(cf.this_class) + (be16(cf.super_class) + (be16(cf.interfaces_count) + (
    enc_u16_list(cf.interfaces@) + (be16(cf.fields_count) + (enc_field_list(cf.fields@) + (be16(
        cf.methods_count,
    ) + (enc_method_list(cf.methods@) + (be16(cf.attributes_count) + enc_attribute_list(
        cf.attributes@,
    ))))))))))))))));
    assert(be16(cf.access_flags) + (be16(cf.this_class) + (be16(cf.super_class) + (be16(
        cf.interfaces_count,
    ) + (enc_u16_list(cf.interfaces@) + (be16(cf.fields_count) + (enc_field_list(cf.fields@) + (
    be16(cf.methods_count) + (enc_method_list(cf.methods@) + (be16(cf.attributes_count)
        + enc_attribute_list(cf.attributes@)))))))))) =~= enc_after_pool(cf));
}


/// Peeling the known head off a suffix equality: the head sits at `o`, and
/// the rest is the suffix just past it.
pub proof fn lemma_peel(b: Seq<u8>, o: int, p: Seq<u8>, rest: Seq<u8>)
    requires
        0 <= o <= b.len(),
        b.skip(o) == p + rest,
    ensures
        o + p.len() <= b.len(),
        b.subrange(o, o + p.len() as int) == p,
        b.skip(o + p.len() as int) == rest,
        starts_with(b.skip(o), p),
{
    assert(b.skip(o).len() == p.len() + rest.len());
    assert(b.subrange(o, o + p.len() as int) =~= p) by {
        assert(forall|i: int| 0 <= i < p.len() ==> b[o + i] == #[trigger] b.skip(o)[i]);
        assert(forall|i: int| 0 <= i < p.len() ==> #[trigger] (p + rest)[i] == p[i]);
    }
    assert forall|i: int| 0 <= i < rest.len() implies b.skip(o + p.len() as int)[i] == rest[i] by {
        assert(b.skip(o + p.len() as int)[i] == b[o + p.len() + i]);
        assert(b.skip(o)[p.len() + i] == b[o + p.len() + i]);
        assert((p + rest)[p.len() + i] == rest[i]);
    }
    assert(b.skip(o + p.len() as int).len() == rest.len());
    assert(b.skip(o + p.len() as int) =~= rest);
    assert(b.skip(o).subrange(0, p.len() as int) =~= p);
}

/// The header fields of a unit's exact wire form sit at their fixed
/// offsets, and the pool section with everything after it follows.
#[verifier::rlimit(100)]
#[verifier::spinoff_prover]
pub proof fn lemma_class_file_header(b: Seq<u8>, w: ClassFile)
    requires
        wf_class_file(w),
        enc_class_file(w) == b,
    ensures
        b.len() >= 10,
        b.subrange(0, 4) == w.magic@,
        b.subrange(4, 6) == be16(w.minor_version),
        b.subrange(6, 8) == be16(w.major_version),
        b.subrange(8, 10) == be16(w.constant_pool_count),
        b.skip(10) == enc_cp_list(w.constant_pool@) + enc_after_pool(w),
{
    lemma_enc_class_file_sections(w);
    assert(b.skip(0) =~= b);
    lemma_peel(
        b,
        0,
        w.magic@,
        be16(w.minor_version) + (be16(w.major_version) + (be16(w.constant_pool_count) + (
        enc_cp_list(w.constant_pool@) + enc_after_pool(w)))),
    );
    lemma_peel(
        b,
        4,
        be16(w.minor_version),
        be16(w.major_version) + (be16(w.constant_pool_count) + (enc_cp_list(w.constant_pool@)
            + enc_after_pool(w))),
    );
    lemma_peel(
        b,
        6,
        be16(w.major_version),
        be16(w.constant_pool_count) + (enc_cp_list(w.constant_pool@) + enc_after_pool(w)),
    );
    lemma_peel(
        b,
        8,
        be16(w.constant_pool_count),
        enc_cp_list(w.constant_pool@) + enc_after_pool(w),
    );
}

} // verus!
