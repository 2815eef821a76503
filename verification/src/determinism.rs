//! No two well-formed units share a wire form, nor is one unit's wire form
//! a prefix of another's. Together with the reader's contract — a
//! successful decode re-encodes to exactly the input — this pins down the
//! decoder's fail-closed behaviour: a strict prefix of a valid encoding
//! can never decode to anything, and a valid encoding with trailing bytes
//! appended can never decode either.

use vstd::prelude::*;

use crate::attribute::{
    Attribute, BootstrapMethod, Export, ExceptionTable, Open, Parameter, Provide, Require,
    StackMapFrame, VerificationTypeInfo,
};
use crate::constant_pool::CpInfo;
use crate::encoding::{
    be16, be32, enc_attribute, enc_attribute_list, enc_bootstrap_list, enc_bootstrap_method,
    enc_class_file, enc_cp_info, enc_cp_list, enc_exception_list, enc_exception_table, enc_export,
    enc_export_list, enc_field, enc_field_list, enc_frame_list, enc_method, enc_method_list,
    enc_open, enc_open_list, enc_parameter, enc_parameter_list, enc_provide, enc_provide_list,
    enc_require, enc_require_list, enc_stack_map_frame, enc_u16_list, enc_verification_list,
    enc_verification_type, wf_attribute, wf_attribute_list, wf_bootstrap_list_all,
    wf_bootstrap_method, wf_class_file, wf_export_list_all, wf_open_list_all, wf_provide_list_all,
    wf_cp_info, wf_cp_list, wf_export, wf_field, wf_method, wf_open, wf_provide,
    wf_stack_map_frame, wf_verification_list, wf_verification_type, cp_text_at,
    known_attribute_name, wf_frame_list,
};
use crate::root::{ClassFile, FieldsInfo, MethodInfo};

verus! {

/// Two concatenations with equally long heads are equal piecewise.
pub proof fn lemma_cat_split(x1: Seq<u8>, y1: Seq<u8>, x2: Seq<u8>, y2: Seq<u8>)
    requires
        x1.len() == x2.len(),
        x1 + y1 == x2 + y2,
    ensures
        x1 == x2,
        y1 == y2,
{
    assert((x1 + y1).len() == x1.len() + y1.len());
    assert((x2 + y2).len() == x2.len() + y2.len());
    assert(y1.len() == y2.len());
    assert forall|i: int| 0 <= i < x1.len() implies x1[i] == x2[i] by {
        assert((x1 + y1)[i] == x1[i]);
        assert((x2 + y2)[i] == x2[i]);
    }
    assert(x1 =~= x2);
    assert forall|i: int| 0 <= i < y1.len() implies y1[i] == y2[i] by {
        assert((x1 + y1)[x1.len() + i] == y1[i]);
        assert((x2 + y2)[x2.len() + i] == y2[i]);
    }
    assert(y1 =~= y2);
}

/// A 16-bit value is determined by the two bytes it encodes to.
pub proof fn lemma_be16_det(v1: u16, t1: Seq<u8>, v2: u16, t2: Seq<u8>)
    requires
        be16(v1) + t1 == be16(v2) + t2,
    ensures
        v1 == v2,
        t1 == t2,
{
    lemma_cat_split(be16(v1), t1, be16(v2), t2);
    assert(v1 == 256 * (v1 / 256) + v1 % 256);
    assert(v2 == 256 * (v2 / 256) + v2 % 256);
    assert(be16(v1)[0] == be16(v2)[0] && be16(v1)[1] == be16(v2)[1]);
}

/// A 32-bit value is determined by the four bytes it encodes to.
pub proof fn lemma_be32_det(v1: u32, t1: Seq<u8>, v2: u32, t2: Seq<u8>)
    requires
        be32(v1) + t1 == be32(v2) + t2,
    ensures
        v1 == v2,
        t1 == t2,
{
    assert(be32(v1) + t1 =~= be16((v1 / 65536) as u16) + (be16((v1 % 65536) as u16) + t1));
    assert(be32(v2) + t2 =~= be16((v2 / 65536) as u16) + (be16((v2 % 65536) as u16) + t2));
    lemma_be16_det(
        (v1 / 65536) as u16,
        be16((v1 % 65536) as u16) + t1,
        (v2 / 65536) as u16,
        be16((v2 % 65536) as u16) + t2,
    );
    lemma_be16_det((v1 % 65536) as u16, t1, (v2 % 65536) as u16, t2);
    assert(v1 == 65536 * (v1 / 65536) + v1 % 65536);
    assert(v2 == 65536 * (v2 / 65536) + v2 % 65536);
}

/// The leading tag byte of a pool entry's wire form.
spec fn cp_tag(ci: CpInfo) -> u8 {
    match ci {
        CpInfo::Utf8(_) => 1,
        CpInfo::Integer(_) => 3,
        CpInfo::Float(_) => 4,
        CpInfo::Long(_) => 5,
        CpInfo::Double(_) => 6,
        CpInfo::Class(_) => 7,
        CpInfo::String(_) => 8,
        CpInfo::Fieldref(_) => 9,
        CpInfo::Methodref(_) => 10,
        CpInfo::InterfaceMethodref(_) => 11,
        CpInfo::NameAndType(_) => 12,
        CpInfo::MethodHandle(_) => 15,
        CpInfo::MethodType(_) => 16,
        CpInfo::Dynamic(_) => 17,
        CpInfo::InvokeDynamic(_) => 18,
        CpInfo::Module(_) => 19,
        CpInfo::Package(_) => 20,
    }
}

proof fn lemma_cp_tag_first(ci: CpInfo, t: Seq<u8>)
    ensures
        (enc_cp_info(ci) + t).len() > 0,
        (enc_cp_info(ci) + t)[0] == cp_tag(ci),
{
}

/// Two pool entries agree in every field a checking pass reads: same
/// variant, same index and kind fields, and the same text bytes.
pub open spec fn cp_info_view_eq(c1: CpInfo, c2: CpInfo) -> bool {
    match (c1, c2) {
        (CpInfo::Utf8(u1), CpInfo::Utf8(u2)) => u1.length == u2.length && u1.bytes@ == u2.bytes@,
        (CpInfo::Integer(i1), CpInfo::Integer(i2)) => i1.bytes@ == i2.bytes@,
        (CpInfo::Float(f1), CpInfo::Float(f2)) => f1.bytes@ == f2.bytes@,
        (CpInfo::Long(l1), CpInfo::Long(l2)) => l1.high_bytes@ == l2.high_bytes@ && l1.low_bytes@
            == l2.low_bytes@,
        (CpInfo::Double(d1), CpInfo::Double(d2)) => d1.high_bytes@ == d2.high_bytes@
            && d1.low_bytes@ == d2.low_bytes@,
        (CpInfo::Class(x1), CpInfo::Class(x2)) => x1.name_index == x2.name_index,
        (CpInfo::String(x1), CpInfo::String(x2)) => x1.string_index == x2.string_index,
        (CpInfo::Fieldref(x1), CpInfo::Fieldref(x2)) => x1.class_index == x2.class_index
            && x1.name_and_type_index == x2.name_and_type_index,
        (CpInfo::Methodref(x1), CpInfo::Methodref(x2)) => x1.class_index == x2.class_index
            && x1.name_and_type_index == x2.name_and_type_index,
        (CpInfo::InterfaceMethodref(x1), CpInfo::InterfaceMethodref(x2)) => x1.class_index
            == x2.class_index && x1.name_and_type_index == x2.name_and_type_index,
        (CpInfo::NameAndType(x1), CpInfo::NameAndType(x2)) => x1.name_index == x2.name_index
            && x1.descriptor_index == x2.descriptor_index,
        (CpInfo::MethodHandle(x1), CpInfo::MethodHandle(x2)) => x1.reference_kind
            == x2.reference_kind && x1.reference_index == x2.reference_index,
        (CpInfo::MethodType(x1), CpInfo::MethodType(x2)) => x1.descriptor_index
            == x2.descriptor_index,
        (CpInfo::Dynamic(x1), CpInfo::Dynamic(x2)) => x1.bootstrap_method_attr_index
            == x2.bootstrap_method_attr_index && x1.name_and_type_index == x2.name_and_type_index,
        (CpInfo::InvokeDynamic(x1), CpInfo::InvokeDynamic(x2)) => x1.bootstrap_method_attr_index
            == x2.bootstrap_method_attr_index && x1.name_and_type_index == x2.name_and_type_index,
        (CpInfo::Module(x1), CpInfo::Module(x2)) => x1.name_index == x2.name_index,
        (CpInfo::Package(x1), CpInfo::Package(x2)) => x1.name_index == x2.name_index,
        _ => false,
    }
}

/// Two pools agree entry by entry in everything a checking pass reads.
pub open spec fn pool_view_eq(p1: Seq<CpInfo>, p2: Seq<CpInfo>) -> bool {
    &&& p1.len() == p2.len()
    &&& forall|j: int| 0 <= j < p1.len() ==> cp_info_view_eq(#[trigger] p1[j], p2[j])
}

/// A pool entry and what follows it are determined by its wire form.
pub proof fn lemma_cp_info_det(c1: CpInfo, t1: Seq<u8>, c2: CpInfo, t2: Seq<u8>)
    requires
        wf_cp_info(c1),
        wf_cp_info(c2),
        enc_cp_info(c1) + t1 == enc_cp_info(c2) + t2,
    ensures
        t1 == t2,
        cp_info_view_eq(c1, c2),
{
    lemma_cp_tag_first(c1, t1);
    lemma_cp_tag_first(c2, t2);
    assert(cp_tag(c1) == cp_tag(c2));
    match (c1, c2) {
        (CpInfo::Utf8(u1), CpInfo::Utf8(u2)) => {
            assert(enc_cp_info(c1) + t1 =~= seq![1u8] + (be16(u1.length) + (u1.bytes@ + t1)));
            assert(enc_cp_info(c2) + t2 =~= seq![1u8] + (be16(u2.length) + (u2.bytes@ + t2)));
            lemma_cat_split(
                seq![1u8],
                be16(u1.length) + (u1.bytes@ + t1),
                seq![1u8],
                be16(u2.length) + (u2.bytes@ + t2),
            );
            lemma_be16_det(u1.length, u1.bytes@ + t1, u2.length, u2.bytes@ + t2);
            lemma_cat_split(u1.bytes@, t1, u2.bytes@, t2);
        },
        (CpInfo::Integer(i1), CpInfo::Integer(i2)) => {
            assert(enc_cp_info(c1) + t1 =~= seq![3u8] + (i1.bytes@ + t1));
            assert(enc_cp_info(c2) + t2 =~= seq![3u8] + (i2.bytes@ + t2));
            lemma_cat_split(seq![3u8], i1.bytes@ + t1, seq![3u8], i2.bytes@ + t2);
            lemma_cat_split(i1.bytes@, t1, i2.bytes@, t2);
        },
        (CpInfo::Float(f1), CpInfo::Float(f2)) => {
            assert(enc_cp_info(c1) + t1 =~= seq![4u8] + (f1.bytes@ + t1));
            assert(enc_cp_info(c2) + t2 =~= seq![4u8] + (f2.bytes@ + t2));
            lemma_cat_split(seq![4u8], f1.bytes@ + t1, seq![4u8], f2.bytes@ + t2);
            lemma_cat_split(f1.bytes@, t1, f2.bytes@, t2);
        },
        (CpInfo::Long(l1), CpInfo::Long(l2)) => {
            assert(enc_cp_info(c1) + t1 =~= seq![5u8] + (l1.high_bytes@ + (l1.low_bytes@ + t1)));
            assert(enc_cp_info(c2) + t2 =~= seq![5u8] + (l2.high_bytes@ + (l2.low_bytes@ + t2)));
            lemma_cat_split(
                seq![5u8],
                l1.high_bytes@ + (l1.low_bytes@ + t1),
                seq![5u8],
                l2.high_bytes@ + (l2.low_bytes@ + t2),
            );
            lemma_cat_split(l1.high_bytes@, l1.low_bytes@ + t1, l2.high_bytes@, l2.low_bytes@ + t2);
            lemma_cat_split(l1.low_bytes@, t1, l2.low_bytes@, t2);
        },
        (CpInfo::Double(d1), CpInfo::Double(d2)) => {
            assert(enc_cp_info(c1) + t1 =~= seq![6u8] + (d1.high_bytes@ + (d1.low_bytes@ + t1)));
            assert(enc_cp_info(c2) + t2 =~= seq![6u8] + (d2.high_bytes@ + (d2.low_bytes@ + t2)));
            lemma_cat_split(
                seq![6u8],
                d1.high_bytes@ + (d1.low_bytes@ + t1),
                seq![6u8],
                d2.high_bytes@ + (d2.low_bytes@ + t2),
            );
            lemma_cat_split(d1.high_bytes@, d1.low_bytes@ + t1, d2.high_bytes@, d2.low_bytes@ + t2);
            lemma_cat_split(d1.low_bytes@, t1, d2.low_bytes@, t2);
        },
        (CpInfo::Class(x1), CpInfo::Class(x2)) => {
            assert(enc_cp_info(c1) + t1 =~= seq![7u8] + (be16(x1.name_index) + t1));
            assert(enc_cp_info(c2) + t2 =~= seq![7u8] + (be16(x2.name_index) + t2));
            lemma_cat_split(seq![7u8], be16(x1.name_index) + t1, seq![7u8], be16(x2.name_index) + t2);
            lemma_be16_det(x1.name_index, t1, x2.name_index, t2);
        },
        (CpInfo::String(x1), CpInfo::String(x2)) => {
            assert(enc_cp_info(c1) + t1 =~= seq![8u8] + (be16(x1.string_index) + t1));
            assert(enc_cp_info(c2) + t2 =~= seq![8u8] + (be16(x2.string_index) + t2));
            lemma_cat_split(
                seq![8u8],
                be16(x1.string_index) + t1,
                seq![8u8],
                be16(x2.string_index) + t2,
            );
            lemma_be16_det(x1.string_index, t1, x2.string_index, t2);
        },
        (CpInfo::Fieldref(x1), CpInfo::Fieldref(x2)) => {
            assert(enc_cp_info(c1) + t1 =~= seq![9u8] + (be16(x1.class_index) + (be16(
                            x1.name_and_type_index,
                        ) + t1)));
            assert(enc_cp_info(c2) + t2 =~= seq![9u8] + (be16(x2.class_index) + (be16(
                            x2.name_and_type_index,
                        ) + t2)));
            lemma_cat_split(
                seq![9u8],
                be16(x1.class_index) + (be16(x1.name_and_type_index) + t1),
                seq![9u8],
                be16(x2.class_index) + (be16(x2.name_and_type_index) + t2),
            );
            lemma_be16_det(
                x1.class_index,
                be16(x1.name_and_type_index) + t1,
                x2.class_index,
                be16(x2.name_and_type_index) + t2,
            );
            lemma_be16_det(x1.name_and_type_index, t1, x2.name_and_type_index, t2);
        },
        (CpInfo::Methodref(x1), CpInfo::Methodref(x2)) => {
            assert(enc_cp_info(c1) + t1 =~= seq![10u8] + (be16(x1.class_index) + (be16(
                            x1.name_and_type_index,
                        ) + t1)));
            assert(enc_cp_info(c2) + t2 =~= seq![10u8] + (be16(x2.class_index) + (be16(
                            x2.name_and_type_index,
                        ) + t2)));
            lemma_cat_split(
                seq![10u8],
                be16(x1.class_index) + (be16(x1.name_and_type_index) + t1),
                seq![10u8],
                be16(x2.class_index) + (be16(x2.name_and_type_index) + t2),
            );
            lemma_be16_det(
                x1.class_index,
                be16(x1.name_and_type_index) + t1,
                x2.class_index,
                be16(x2.name_and_type_index) + t2,
            );
            lemma_be16_det(x1.name_and_type_index, t1, x2.name_and_type_index, t2);
        },
        (CpInfo::InterfaceMethodref(x1), CpInfo::InterfaceMethodref(x2)) => {
            assert(enc_cp_info(c1) + t1 =~= seq![11u8] + (be16(x1.class_index) + (be16(
                            x1.name_and_type_index,
                        ) + t1)));
            assert(enc_cp_info(c2) + t2 =~= seq![11u8] + (be16(x2.class_index) + (be16(
                            x2.name_and_type_index,
                        ) + t2)));
            lemma_cat_split(
                seq![11u8],
                be16(x1.class_index) + (be16(x1.name_and_type_index) + t1),
                seq![11u8],
                be16(x2.class_index) + (be16(x2.name_and_type_index) + t2),
            );
            lemma_be16_det(
                x1.class_index,
                be16(x1.name_and_type_index) + t1,
                x2.class_index,
                be16(x2.name_and_type_index) + t2,
            );
            lemma_be16_det(x1.name_and_type_index, t1, x2.name_and_type_index, t2);
        },
        (CpInfo::NameAndType(x1), CpInfo::NameAndType(x2)) => {
            assert(enc_cp_info(c1) + t1 =~= seq![12u8] + (be16(x1.name_index) + (be16(
                            x1.descriptor_index,
                        ) + t1)));
            assert(enc_cp_info(c2) + t2 =~= seq![12u8] + (be16(x2.name_index) + (be16(
                            x2.descriptor_index,
                        ) + t2)));
            lemma_cat_split(
                seq![12u8],
                be16(x1.name_index) + (be16(x1.descriptor_index) + t1),
                seq![12u8],
                be16(x2.name_index) + (be16(x2.descriptor_index) + t2),
            );
            lemma_be16_det(
                x1.name_index,
                be16(x1.descriptor_index) + t1,
                x2.name_index,
                be16(x2.descriptor_index) + t2,
            );
            lemma_be16_det(x1.descriptor_index, t1, x2.descriptor_index, t2);
        },
        (CpInfo::MethodHandle(x1), CpInfo::MethodHandle(x2)) => {
            assert(enc_cp_info(c1) + t1 =~= seq![15u8] + (seq![x1.reference_kind] + (be16(
                            x1.reference_index,
                        ) + t1)));
            assert(enc_cp_info(c2) + t2 =~= seq![15u8] + (seq![x2.reference_kind] + (be16(
                            x2.reference_index,
                        ) + t2)));
            lemma_cat_split(
                seq![15u8],
                seq![x1.reference_kind] + (be16(x1.reference_index) + t1),
                seq![15u8],
                seq![x2.reference_kind] + (be16(x2.reference_index) + t2),
            );
            lemma_cat_split(
                seq![x1.reference_kind],
                be16(x1.reference_index) + t1,
                seq![x2.reference_kind],
                be16(x2.reference_index) + t2,
            );
            assert(seq![x1.reference_kind][0] == seq![x2.reference_kind][0]);
            lemma_be16_det(x1.reference_index, t1, x2.reference_index, t2);
        },
        (CpInfo::MethodType(x1), CpInfo::MethodType(x2)) => {
            assert(enc_cp_info(c1) + t1 =~= seq![16u8] + (be16(x1.descriptor_index) + t1));
            assert(enc_cp_info(c2) + t2 =~= seq![16u8] + (be16(x2.descriptor_index) + t2));
            lemma_cat_split(
                seq![16u8],
                be16(x1.descriptor_index) + t1,
                seq![16u8],
                be16(x2.descriptor_index) + t2,
            );
            lemma_be16_det(x1.descriptor_index, t1, x2.descriptor_index, t2);
        },
        (CpInfo::Dynamic(x1), CpInfo::Dynamic(x2)) => {
            assert(enc_cp_info(c1) + t1 =~= seq![17u8] + (be16(x1.bootstrap_method_attr_index)
                    + (be16(x1.name_and_type_index) + t1)));
            assert(enc_cp_info(c2) + t2 =~= seq![17u8] + (be16(x2.bootstrap_method_attr_index)
                    + (be16(x2.name_and_type_index) + t2)));
            lemma_cat_split(
                seq![17u8],
                be16(x1.bootstrap_method_attr_index) + (be16(x1.name_and_type_index) + t1),
                seq![17u8],
                be16(x2.bootstrap_method_attr_index) + (be16(x2.name_and_type_index) + t2),
            );
            lemma_be16_det(
                x1.bootstrap_method_attr_index,
                be16(x1.name_and_type_index) + t1,
                x2.bootstrap_method_attr_index,
                be16(x2.name_and_type_index) + t2,
            );
            lemma_be16_det(x1.name_and_type_index, t1, x2.name_and_type_index, t2);
        },
        (CpInfo::InvokeDynamic(x1), CpInfo::InvokeDynamic(x2)) => {
            assert(enc_cp_info(c1) + t1 =~= seq![18u8] + (be16(x1.bootstrap_method_attr_index)
                    + (be16(x1.name_and_type_index) + t1)));
            assert(enc_cp_info(c2) + t2 =~= seq![18u8] + (be16(x2.bootstrap_method_attr_index)
                    + (be16(x2.name_and_type_index) + t2)));
            lemma_cat_split(
                seq![18u8],
                be16(x1.bootstrap_method_attr_index) + (be16(x1.name_and_type_index) + t1),
                seq![18u8],
                be16(x2.bootstrap_method_attr_index) + (be16(x2.name_and_type_index) + t2),
            );
            lemma_be16_det(
                x1.bootstrap_method_attr_index,
                be16(x1.name_and_type_index) + t1,
                x2.bootstrap_method_attr_index,
                be16(x2.name_and_type_index) + t2,
            );
            lemma_be16_det(x1.name_and_type_index, t1, x2.name_and_type_index, t2);
        },
        (CpInfo::Module(x1), CpInfo::Module(x2)) => {
            assert(enc_cp_info(c1) + t1 =~= seq![19u8] + (be16(x1.name_index) + t1));
            assert(enc_cp_info(c2) + t2 =~= seq![19u8] + (be16(x2.name_index) + t2));
            lemma_cat_split(
                seq![19u8],
                be16(x1.name_index) + t1,
                seq![19u8],
                be16(x2.name_index) + t2,
            );
            lemma_be16_det(x1.name_index, t1, x2.name_index, t2);
        },
        (CpInfo::Package(x1), CpInfo::Package(x2)) => {
            assert(enc_cp_info(c1) + t1 =~= seq![20u8] + (be16(x1.name_index) + t1));
            assert(enc_cp_info(c2) + t2 =~= seq![20u8] + (be16(x2.name_index) + t2));
            lemma_cat_split(
                seq![20u8],
                be16(x1.name_index) + t1,
                seq![20u8],
                be16(x2.name_index) + t2,
            );
            lemma_be16_det(x1.name_index, t1, x2.name_index, t2);
        },
        _ => {
            assert(false);
        },
    }
}

/// Two pools agree on which slots hold text entries and on their bytes;
/// everything attribute well-formedness reads of a pool.
pub open spec fn same_text_entries(p1: Seq<CpInfo>, p2: Seq<CpInfo>) -> bool {
    &&& p1.len() == p2.len()
    &&& forall|j: int|
    0 <= j < p1.len() ==> (((#[trigger] p1[j]) is Utf8 <==> p2[j] is Utf8) && (p1[j] is Utf8
            ==> p1[j]->Utf8_0.bytes@ == p2[j]->Utf8_0.bytes@))
}

proof fn lemma_same_text_entries_text(p1: Seq<CpInfo>, p2: Seq<CpInfo>, idx: u16)
    requires
        same_text_entries(p1, p2),
    ensures
        cp_text_at(p1, idx) == cp_text_at(p2, idx),
{
    if 1 <= idx && idx <= p1.len() {
        assert(p1[idx - 1] is Utf8 <==> p2[idx - 1] is Utf8);
    }
}

/// Equal wire forms of two well-formed pool entries make them
/// indistinguishable as text entries.
proof fn lemma_cp_info_enc_eq_text(c1: CpInfo, c2: CpInfo)
    requires
        wf_cp_info(c1),
        wf_cp_info(c2),
        enc_cp_info(c1) == enc_cp_info(c2),
    ensures
        c1 is Utf8 <==> c2 is Utf8,
        c1 is Utf8 ==> c1->Utf8_0.bytes@ == c2->Utf8_0.bytes@,
{
    lemma_cp_tag_first(c1, Seq::<u8>::empty());
    lemma_cp_tag_first(c2, Seq::<u8>::empty());
    assert((enc_cp_info(c1) + Seq::<u8>::empty())[0] == (enc_cp_info(c2) + Seq::<u8>::empty())[0]);
    if c1 is Utf8 && c2 is Utf8 {
        let u1 = c1->Utf8_0;
        let u2 = c2->Utf8_0;
        assert(enc_cp_info(c1) + Seq::<u8>::empty() =~= seq![1u8] + (be16(u1.length) + (u1.bytes@
                    + Seq::<u8>::empty())));
        assert(enc_cp_info(c2) + Seq::<u8>::empty() =~= seq![1u8] + (be16(u2.length) + (u2.bytes@
                    + Seq::<u8>::empty())));
        lemma_cat_split(
            seq![1u8],
            be16(u1.length) + (u1.bytes@ + Seq::<u8>::empty()),
            seq![1u8],
            be16(u2.length) + (u2.bytes@ + Seq::<u8>::empty()),
        );
        lemma_be16_det(
            u1.length,
            u1.bytes@ + Seq::<u8>::empty(),
            u2.length,
            u2.bytes@ + Seq::<u8>::empty(),
        );
        lemma_cat_split(u1.bytes@, Seq::<u8>::empty(), u2.bytes@, Seq::<u8>::empty());
    }
}

/// Attribute well-formedness carries over between pools that agree on
/// their text entries.
pub proof fn lemma_wf_attribute_same_pool(p1: Seq<CpInfo>, p2: Seq<CpInfo>, a: Attribute)
    requires
        same_text_entries(p1, p2),
        wf_attribute(p2, a),
    ensures
        wf_attribute(p1, a),
    decreases a, 0int,
{
    lemma_same_text_entries_text(p1, p2, crate::attribute::spec_attribute_name_index(a));
    match a {
        Attribute::Code(c) => {
            lemma_wf_attribute_list_same_pool(p1, p2, c.attributes@);
        },
        _ => {},
    }
}

pub proof fn lemma_wf_attribute_list_same_pool(p1: Seq<CpInfo>, p2: Seq<CpInfo>, s: Seq<Attribute>)
    requires
        same_text_entries(p1, p2),
        wf_attribute_list(p2, s),
    ensures
        wf_attribute_list(p1, s),
    decreases s, 1int,
{
    if s.len() > 0 {
        lemma_wf_attribute_same_pool(p1, p2, s[0]);
        lemma_wf_attribute_list_same_pool(p1, p2, s.drop_first());
    }
}

/// A run of pool entries of a known count, and what follows it, are
/// determined by their wire form.
pub proof fn lemma_cp_list_det(s1: Seq<CpInfo>, t1: Seq<u8>, s2: Seq<CpInfo>, t2: Seq<u8>)
    requires
        s1.len() == s2.len(),
        wf_cp_list(s1),
        wf_cp_list(s2),
        enc_cp_list(s1) + t1 == enc_cp_list(s2) + t2,
    ensures
        t1 == t2,
        same_text_entries(s1, s2),
        pool_view_eq(s1, s2),
    decreases s1.len(),
{
    if s1.len() == 0 {
        assert(enc_cp_list(s1) + t1 =~= t1);
        assert(enc_cp_list(s2) + t2 =~= t2);
    } else {
        assert(enc_cp_list(s1) + t1 =~= enc_cp_info(s1[0]) + (enc_cp_list(s1.drop_first()) + t1));
        assert(enc_cp_list(s2) + t2 =~= enc_cp_info(s2[0]) + (enc_cp_list(s2.drop_first()) + t2));
        lemma_cp_info_det(
            s1[0],
            enc_cp_list(s1.drop_first()) + t1,
            s2[0],
            enc_cp_list(s2.drop_first()) + t2,
        );
        assert(wf_cp_list(s1.drop_first())) by {
            assert(forall|i: int|
                0 <= i < s1.drop_first().len() ==> #[trigger] s1.drop_first()[i] == s1[i + 1]);
        }
        assert(wf_cp_list(s2.drop_first())) by {
            assert(forall|i: int|
                0 <= i < s2.drop_first().len() ==> #[trigger] s2.drop_first()[i] == s2[i + 1]);
        }
        lemma_cp_list_det(s1.drop_first(), t1, s2.drop_first(), t2);
        assert(enc_cp_info(s1[0]) == enc_cp_info(s2[0])) by {
            lemma_cat_split(
                enc_cp_info(s1[0]),
                enc_cp_list(s1.drop_first()) + t1,
                enc_cp_info(s2[0]),
                enc_cp_list(s2.drop_first()) + t2,
            );
        }
        lemma_cp_info_enc_eq_text(s1[0], s2[0]);
        assert forall|j: int| 0 <= j < s1.len() implies (((#[trigger] s1[j]) is Utf8 <==> s2[j]
                is Utf8) && (s1[j] is Utf8 ==> s1[j]->Utf8_0.bytes@ == s2[j]->Utf8_0.bytes@)
            && cp_info_view_eq(s1[j], s2[j])) by {
            if j > 0 {
                assert(s1.drop_first()[j - 1] == s1[j]);
                assert(s2.drop_first()[j - 1] == s2[j]);
            }
        }
    }
}

/// A run of 16-bit values of a known count, and what follows it, are
/// determined by their wire form.
pub proof fn lemma_u16_list_det(s1: Seq<u16>, t1: Seq<u8>, s2: Seq<u16>, t2: Seq<u8>)
    requires
        s1.len() == s2.len(),
        enc_u16_list(s1) + t1 == enc_u16_list(s2) + t2,
    ensures
        t1 == t2,
    decreases s1.len(),
{
    if s1.len() == 0 {
        assert(enc_u16_list(s1) + t1 =~= t1);
        assert(enc_u16_list(s2) + t2 =~= t2);
    } else {
        assert(enc_u16_list(s1) + t1 =~= be16(s1[0]) + (enc_u16_list(s1.drop_first()) + t1));
        assert(enc_u16_list(s2) + t2 =~= be16(s2[0]) + (enc_u16_list(s2.drop_first()) + t2));
        lemma_be16_det(
            s1[0],
            enc_u16_list(s1.drop_first()) + t1,
            s2[0],
            enc_u16_list(s2.drop_first()) + t2,
        );
        lemma_u16_list_det(s1.drop_first(), t1, s2.drop_first(), t2);
    }
}


pub proof fn lemma_exception_det(x1: ExceptionTable, t1: Seq<u8>, x2: ExceptionTable, t2: Seq<u8>)
    requires
        enc_exception_table(x1) + t1 == enc_exception_table(x2) + t2,
    ensures
        t1 == t2,
{
    assert(enc_exception_table(x1) + t1 =~= be16(x1.start_pc) + (be16(x1.end_pc) + (be16(x1.handler_pc) + (be16(x1.catch_type) + (t1)))));
    assert(enc_exception_table(x2) + t2 =~= be16(x2.start_pc) + (be16(x2.end_pc) + (be16(x2.handler_pc) + (be16(x2.catch_type) + (t2)))));
    lemma_be16_det(x1.start_pc, be16(x1.end_pc) + (be16(x1.handler_pc) + (be16(x1.catch_type) + (t1))), x2.start_pc, be16(x2.end_pc) + (be16(x2.handler_pc) + (be16(x2.catch_type) + (t2))));
    lemma_be16_det(x1.end_pc, be16(x1.handler_pc) + (be16(x1.catch_type) + (t1)), x2.end_pc, be16(x2.handler_pc) + (be16(x2.catch_type) + (t2)));
    lemma_be16_det(x1.handler_pc, be16(x1.catch_type) + (t1), x2.handler_pc, be16(x2.catch_type) + (t2));
    lemma_be16_det(x1.catch_type, t1, x2.catch_type, t2);
}

pub proof fn lemma_parameter_det(x1: Parameter, t1: Seq<u8>, x2: Parameter, t2: Seq<u8>)
    requires
        enc_parameter(x1) + t1 == enc_parameter(x2) + t2,
    ensures
        t1 == t2,
{
    assert(enc_parameter(x1) + t1 =~= be16(x1.name_index) + (be16(x1.access_flags) + (t1)));
    assert(enc_parameter(x2) + t2 =~= be16(x2.name_index) + (be16(x2.access_flags) + (t2)));
    lemma_be16_det(x1.name_index, be16(x1.access_flags) + (t1), x2.name_index, be16(x2.access_flags) + (t2));
    lemma_be16_det(x1.access_flags, t1, x2.access_flags, t2);
}

pub proof fn lemma_require_det(x1: Require, t1: Seq<u8>, x2: Require, t2: Seq<u8>)
    requires
        enc_require(x1) + t1 == enc_require(x2) + t2,
    ensures
        t1 == t2,
{
    assert(enc_require(x1) + t1 =~= be16(x1.requires_index) + (be16(x1.requires_flags) + (be16(x1.requires_version_index) + (t1))));
    assert(enc_require(x2) + t2 =~= be16(x2.requires_index) + (be16(x2.requires_flags) + (be16(x2.requires_version_index) + (t2))));
    lemma_be16_det(x1.requires_index, be16(x1.requires_flags) + (be16(x1.requires_version_index) + (t1)), x2.requires_index, be16(x2.requires_flags) + (be16(x2.requires_version_index) + (t2)));
    lemma_be16_det(x1.requires_flags, be16(x1.requires_version_index) + (t1), x2.requires_flags, be16(x2.requires_version_index) + (t2));
    lemma_be16_det(x1.requires_version_index, t1, x2.requires_version_index, t2);
}

pub proof fn lemma_bootstrap_det(x1: BootstrapMethod, t1: Seq<u8>, x2: BootstrapMethod, t2: Seq<u8>)
    requires
        wf_bootstrap_method(x1),
        wf_bootstrap_method(x2),
        enc_bootstrap_method(x1) + t1 == enc_bootstrap_method(x2) + t2,
    ensures
        t1 == t2,
{
    assert(enc_bootstrap_method(x1) + t1 =~= be16(x1.bootstrap_method_ref) + (be16(x1.num_bootstrap_arguments) + (enc_u16_list(x1.bootstrap_arguments@) + (t1))));
    assert(enc_bootstrap_method(x2) + t2 =~= be16(x2.bootstrap_method_ref) + (be16(x2.num_bootstrap_arguments) + (enc_u16_list(x2.bootstrap_arguments@) + (t2))));
    lemma_be16_det(x1.bootstrap_method_ref, be16(x1.num_bootstrap_arguments) + (enc_u16_list(x1.bootstrap_arguments@) + (t1)), x2.bootstrap_method_ref, be16(x2.num_bootstrap_arguments) + (enc_u16_list(x2.bootstrap_arguments@) + (t2)));
    lemma_be16_det(x1.num_bootstrap_arguments, enc_u16_list(x1.bootstrap_arguments@) + (t1), x2.num_bootstrap_arguments, enc_u16_list(x2.bootstrap_arguments@) + (t2));
    lemma_u16_list_det(x1.bootstrap_arguments@, t1, x2.bootstrap_arguments@, t2);
}

pub proof fn lemma_export_det(x1: Export, t1: Seq<u8>, x2: Export, t2: Seq<u8>)
    requires
        wf_export(x1),
        wf_export(x2),
        enc_export(x1) + t1 == enc_export(x2) + t2,
    ensures
        t1 == t2,
{
    assert(enc_export(x1) + t1 =~= be16(x1.exports_index) + (be16(x1.exports_flags) + (be16(x1.exports_to_count) + (enc_u16_list(x1.exports_to_index@) + (t1)))));
    assert(enc_export(x2) + t2 =~= be16(x2.exports_index) + (be16(x2.exports_flags) + (be16(x2.exports_to_count) + (enc_u16_list(x2.exports_to_index@) + (t2)))));
    lemma_be16_det(x1.exports_index, be16(x1.exports_flags) + (be16(x1.exports_to_count) + (enc_u16_list(x1.exports_to_index@) + (t1))), x2.exports_index, be16(x2.exports_flags) + (be16(x2.exports_to_count) + (enc_u16_list(x2.exports_to_index@) + (t2))));
    lemma_be16_det(x1.exports_flags, be16(x1.exports_to_count) + (enc_u16_list(x1.exports_to_index@) + (t1)), x2.exports_flags, be16(x2.exports_to_count) + (enc_u16_list(x2.exports_to_index@) + (t2)));
    lemma_be16_det(x1.exports_to_count, enc_u16_list(x1.exports_to_index@) + (t1), x2.exports_to_count, enc_u16_list(x2.exports_to_index@) + (t2));
    lemma_u16_list_det(x1.exports_to_index@, t1, x2.exports_to_index@, t2);
}

pub proof fn lemma_open_det(x1: Open, t1: Seq<u8>, x2: Open, t2: Seq<u8>)
    requires
        wf_open(x1),
        wf_open(x2),
        enc_open(x1) + t1 == enc_open(x2) + t2,
    ensures
        t1 == t2,
{
    assert(enc_open(x1) + t1 =~= be16(x1.opens_index) + (be16(x1.opens_flags) + (be16(x1.opens_to_count) + (enc_u16_list(x1.opens_to_index@) + (t1)))));
    assert(enc_open(x2) + t2 =~= be16(x2.opens_index) + (be16(x2.opens_flags) + (be16(x2.opens_to_count) + (enc_u16_list(x2.opens_to_index@) + (t2)))));
    lemma_be16_det(x1.opens_index, be16(x1.opens_flags) + (be16(x1.opens_to_count) + (enc_u16_list(x1.opens_to_index@) + (t1))), x2.opens_index, be16(x2.opens_flags) + (be16(x2.opens_to_count) + (enc_u16_list(x2.opens_to_index@) + (t2))));
    lemma_be16_det(x1.opens_flags, be16(x1.opens_to_count) + (enc_u16_list(x1.opens_to_index@) + (t1)), x2.opens_flags, be16(x2.opens_to_count) + (enc_u16_list(x2.opens_to_index@) + (t2)));
    lemma_be16_det(x1.opens_to_count, enc_u16_list(x1.opens_to_index@) + (t1), x2.opens_to_count, enc_u16_list(x2.opens_to_index@) + (t2));
    lemma_u16_list_det(x1.opens_to_index@, t1, x2.opens_to_index@, t2);
}

pub proof fn lemma_provide_det(x1: Provide, t1: Seq<u8>, x2: Provide, t2: Seq<u8>)
    requires
        wf_provide(x1),
        wf_provide(x2),
        enc_provide(x1) + t1 == enc_provide(x2) + t2,
    ensures
        t1 == t2,
{
    assert(enc_provide(x1) + t1 =~= be16(x1.provides_index) + (be16(x1.provides_with_count) + (enc_u16_list(x1.provides_with_index@) + (t1))));
    assert(enc_provide(x2) + t2 =~= be16(x2.provides_index) + (be16(x2.provides_with_count) + (enc_u16_list(x2.provides_with_index@) + (t2))));
    lemma_be16_det(x1.provides_index, be16(x1.provides_with_count) + (enc_u16_list(x1.provides_with_index@) + (t1)), x2.provides_index, be16(x2.provides_with_count) + (enc_u16_list(x2.provides_with_index@) + (t2)));
    lemma_be16_det(x1.provides_with_count, enc_u16_list(x1.provides_with_index@) + (t1), x2.provides_with_count, enc_u16_list(x2.provides_with_index@) + (t2));
    lemma_u16_list_det(x1.provides_with_index@, t1, x2.provides_with_index@, t2);
}

/// The leading tag byte of a verification type's wire form, under
/// well-formedness.
proof fn lemma_vt_head(v: VerificationTypeInfo, t: Seq<u8>)
    requires
        wf_verification_type(v),
    ensures
        (enc_verification_type(v) + t).len() > 0,
        match v {
    VerificationTypeInfo::TopVariableInfo { .. } => (enc_verification_type(v) + t)[0] == 0,
    VerificationTypeInfo::IntegerVariableInfo { .. } => (enc_verification_type(v) + t)[0]
    == 1,
    VerificationTypeInfo::FloatVariableInfo { .. } => (enc_verification_type(v) + t)[0]
    == 2,
    VerificationTypeInfo::DoubleVariableInfo { .. } => (enc_verification_type(v) + t)[0]
    == 3,
    VerificationTypeInfo::LongVariableInfo { .. } => (enc_verification_type(v) + t)[0]
    == 4,
    VerificationTypeInfo::NullVariableInfo { .. } => (enc_verification_type(v) + t)[0]
    == 5,
    VerificationTypeInfo::UninitializedThisVariableInfo { .. } => (enc_verification_type(
            v,
        ) + t)[0] == 6,
    VerificationTypeInfo::ObjectVariableInfo { .. } => (enc_verification_type(v) + t)[0]
    == 7,
    VerificationTypeInfo::UninitializedVariableInfo { .. } => (enc_verification_type(v)
        + t)[0] == 8,
},
{
}

pub proof fn lemma_vt_det(v1: VerificationTypeInfo, t1: Seq<u8>, v2: VerificationTypeInfo, t2: Seq<u8>)
    requires
        wf_verification_type(v1),
        wf_verification_type(v2),
        enc_verification_type(v1) + t1 == enc_verification_type(v2) + t2,
    ensures
        t1 == t2,
{
    lemma_vt_head(v1, t1);
    lemma_vt_head(v2, t2);
    match (v1, v2) {
        (
            VerificationTypeInfo::ObjectVariableInfo { tag: g1, cpool_index: i1 },
            VerificationTypeInfo::ObjectVariableInfo { tag: g2, cpool_index: i2 },
        ) => {
            assert(enc_verification_type(v1) + t1 =~= seq![g1] + (be16(i1) + t1));
            assert(enc_verification_type(v2) + t2 =~= seq![g2] + (be16(i2) + t2));
            lemma_cat_split(seq![g1], be16(i1) + t1, seq![g2], be16(i2) + t2);
            lemma_be16_det(i1, t1, i2, t2);
        },
        (
            VerificationTypeInfo::UninitializedVariableInfo { tag: g1, offset: i1 },
            VerificationTypeInfo::UninitializedVariableInfo { tag: g2, offset: i2 },
        ) => {
            assert(enc_verification_type(v1) + t1 =~= seq![g1] + (be16(i1) + t1));
            assert(enc_verification_type(v2) + t2 =~= seq![g2] + (be16(i2) + t2));
            lemma_cat_split(seq![g1], be16(i1) + t1, seq![g2], be16(i2) + t2);
            lemma_be16_det(i1, t1, i2, t2);
        },
        _ => {
            assert(enc_verification_type(v1).len() == 1 && enc_verification_type(v2).len() == 1);
            lemma_cat_split(enc_verification_type(v1), t1, enc_verification_type(v2), t2);
        },
    }
}

pub proof fn lemma_exception_list_det(s1: Seq<ExceptionTable>, t1: Seq<u8>, s2: Seq<ExceptionTable>, t2: Seq<u8>)
    requires
        s1.len() == s2.len(),
        enc_exception_list(s1) + t1 == enc_exception_list(s2) + t2,
    ensures
        t1 == t2,
    decreases s1.len(),
{
    if s1.len() == 0 {
        assert(enc_exception_list(s1) + t1 =~= t1);
        assert(enc_exception_list(s2) + t2 =~= t2);
    } else {
        assert(enc_exception_list(s1) + t1 =~= enc_exception_table(s1[0]) + (enc_exception_list(s1.drop_first()) + t1));
        assert(enc_exception_list(s2) + t2 =~= enc_exception_table(s2[0]) + (enc_exception_list(s2.drop_first()) + t2));
        lemma_exception_det(
            s1[0],
            enc_exception_list(s1.drop_first()) + t1,
            s2[0],
            enc_exception_list(s2.drop_first()) + t2,
        );
        lemma_exception_list_det(s1.drop_first(), t1, s2.drop_first(), t2);
    }
}

pub proof fn lemma_parameter_list_det(s1: Seq<Parameter>, t1: Seq<u8>, s2: Seq<Parameter>, t2: Seq<u8>)
    requires
        s1.len() == s2.len(),
        enc_parameter_list(s1) + t1 == enc_parameter_list(s2) + t2,
    ensures
        t1 == t2,
    decreases s1.len(),
{
    if s1.len() == 0 {
        assert(enc_parameter_list(s1) + t1 =~= t1);
        assert(enc_parameter_list(s2) + t2 =~= t2);
    } else {
        assert(enc_parameter_list(s1) + t1 =~= enc_parameter(s1[0]) + (enc_parameter_list(s1.drop_first()) + t1));
        assert(enc_parameter_list(s2) + t2 =~= enc_parameter(s2[0]) + (enc_parameter_list(s2.drop_first()) + t2));
        lemma_parameter_det(
            s1[0],
            enc_parameter_list(s1.drop_first()) + t1,
            s2[0],
            enc_parameter_list(s2.drop_first()) + t2,
        );
        lemma_parameter_list_det(s1.drop_first(), t1, s2.drop_first(), t2);
    }
}

pub proof fn lemma_require_list_det(s1: Seq<Require>, t1: Seq<u8>, s2: Seq<Require>, t2: Seq<u8>)
    requires
        s1.len() == s2.len(),
        enc_require_list(s1) + t1 == enc_require_list(s2) + t2,
    ensures
        t1 == t2,
    decreases s1.len(),
{
    if s1.len() == 0 {
        assert(enc_require_list(s1) + t1 =~= t1);
        assert(enc_require_list(s2) + t2 =~= t2);
    } else {
        assert(enc_require_list(s1) + t1 =~= enc_require(s1[0]) + (enc_require_list(s1.drop_first()) + t1));
        assert(enc_require_list(s2) + t2 =~= enc_require(s2[0]) + (enc_require_list(s2.drop_first()) + t2));
        lemma_require_det(
            s1[0],
            enc_require_list(s1.drop_first()) + t1,
            s2[0],
            enc_require_list(s2.drop_first()) + t2,
        );
        lemma_require_list_det(s1.drop_first(), t1, s2.drop_first(), t2);
    }
}

pub proof fn lemma_bootstrap_list_det(s1: Seq<BootstrapMethod>, t1: Seq<u8>, s2: Seq<BootstrapMethod>, t2: Seq<u8>)
    requires
        s1.len() == s2.len(),
        wf_bootstrap_list_all(s1),
        wf_bootstrap_list_all(s2),
        enc_bootstrap_list(s1) + t1 == enc_bootstrap_list(s2) + t2,
    ensures
        t1 == t2,
    decreases s1.len(),
{
    if s1.len() == 0 {
        assert(enc_bootstrap_list(s1) + t1 =~= t1);
        assert(enc_bootstrap_list(s2) + t2 =~= t2);
    } else {
        assert(enc_bootstrap_list(s1) + t1 =~= enc_bootstrap_method(s1[0]) + (enc_bootstrap_list(s1.drop_first()) + t1));
        assert(enc_bootstrap_list(s2) + t2 =~= enc_bootstrap_method(s2[0]) + (enc_bootstrap_list(s2.drop_first()) + t2));
        lemma_bootstrap_det(
            s1[0],
            enc_bootstrap_list(s1.drop_first()) + t1,
            s2[0],
            enc_bootstrap_list(s2.drop_first()) + t2,
        );
        assert(wf_bootstrap_list_all(s1.drop_first())) by {
            assert(forall|i: int|
                0 <= i < s1.drop_first().len() ==> #[trigger] s1.drop_first()[i] == s1[i + 1]);
        }
        assert(wf_bootstrap_list_all(s2.drop_first())) by {
            assert(forall|i: int|
                0 <= i < s2.drop_first().len() ==> #[trigger] s2.drop_first()[i] == s2[i + 1]);
        }
        lemma_bootstrap_list_det(s1.drop_first(), t1, s2.drop_first(), t2);
    }
}

pub proof fn lemma_export_list_det(s1: Seq<Export>, t1: Seq<u8>, s2: Seq<Export>, t2: Seq<u8>)
    requires
        s1.len() == s2.len(),
        wf_export_list_all(s1),
        wf_export_list_all(s2),
        enc_export_list(s1) + t1 == enc_export_list(s2) + t2,
    ensures
        t1 == t2,
    decreases s1.len(),
{
    if s1.len() == 0 {
        assert(enc_export_list(s1) + t1 =~= t1);
        assert(enc_export_list(s2) + t2 =~= t2);
    } else {
        assert(enc_export_list(s1) + t1 =~= enc_export(s1[0]) + (enc_export_list(s1.drop_first()) + t1));
        assert(enc_export_list(s2) + t2 =~= enc_export(s2[0]) + (enc_export_list(s2.drop_first()) + t2));
        lemma_export_det(
            s1[0],
            enc_export_list(s1.drop_first()) + t1,
            s2[0],
            enc_export_list(s2.drop_first()) + t2,
        );
        assert(wf_export_list_all(s1.drop_first())) by {
            assert(forall|i: int|
                0 <= i < s1.drop_first().len() ==> #[trigger] s1.drop_first()[i] == s1[i + 1]);
        }
        assert(wf_export_list_all(s2.drop_first())) by {
            assert(forall|i: int|
                0 <= i < s2.drop_first().len() ==> #[trigger] s2.drop_first()[i] == s2[i + 1]);
        }
        lemma_export_list_det(s1.drop_first(), t1, s2.drop_first(), t2);
    }
}

pub proof fn lemma_open_list_det(s1: Seq<Open>, t1: Seq<u8>, s2: Seq<Open>, t2: Seq<u8>)
    requires
        s1.len() == s2.len(),
        wf_open_list_all(s1),
        wf_open_list_all(s2),
        enc_open_list(s1) + t1 == enc_open_list(s2) + t2,
    ensures
        t1 == t2,
    decreases s1.len(),
{
    if s1.len() == 0 {
        assert(enc_open_list(s1) + t1 =~= t1);
        assert(enc_open_list(s2) + t2 =~= t2);
    } else {
        assert(enc_open_list(s1) + t1 =~= enc_open(s1[0]) + (enc_open_list(s1.drop_first()) + t1));
        assert(enc_open_list(s2) + t2 =~= enc_open(s2[0]) + (enc_open_list(s2.drop_first()) + t2));
        lemma_open_det(
            s1[0],
            enc_open_list(s1.drop_first()) + t1,
            s2[0],
            enc_open_list(s2.drop_first()) + t2,
        );
        assert(wf_open_list_all(s1.drop_first())) by {
            assert(forall|i: int|
                0 <= i < s1.drop_first().len() ==> #[trigger] s1.drop_first()[i] == s1[i + 1]);
        }
        assert(wf_open_list_all(s2.drop_first())) by {
            assert(forall|i: int|
                0 <= i < s2.drop_first().len() ==> #[trigger] s2.drop_first()[i] == s2[i + 1]);
        }
        lemma_open_list_det(s1.drop_first(), t1, s2.drop_first(), t2);
    }
}

pub proof fn lemma_provide_list_det(s1: Seq<Provide>, t1: Seq<u8>, s2: Seq<Provide>, t2: Seq<u8>)
    requires
        s1.len() == s2.len(),
        wf_provide_list_all(s1),
        wf_provide_list_all(s2),
        enc_provide_list(s1) + t1 == enc_provide_list(s2) + t2,
    ensures
        t1 == t2,
    decreases s1.len(),
{
    if s1.len() == 0 {
        assert(enc_provide_list(s1) + t1 =~= t1);
        assert(enc_provide_list(s2) + t2 =~= t2);
    } else {
        assert(enc_provide_list(s1) + t1 =~= enc_provide(s1[0]) + (enc_provide_list(s1.drop_first()) + t1));
        assert(enc_provide_list(s2) + t2 =~= enc_provide(s2[0]) + (enc_provide_list(s2.drop_first()) + t2));
        lemma_provide_det(
            s1[0],
            enc_provide_list(s1.drop_first()) + t1,
            s2[0],
            enc_provide_list(s2.drop_first()) + t2,
        );
        assert(wf_provide_list_all(s1.drop_first())) by {
            assert(forall|i: int|
                0 <= i < s1.drop_first().len() ==> #[trigger] s1.drop_first()[i] == s1[i + 1]);
        }
        assert(wf_provide_list_all(s2.drop_first())) by {
            assert(forall|i: int|
                0 <= i < s2.drop_first().len() ==> #[trigger] s2.drop_first()[i] == s2[i + 1]);
        }
        lemma_provide_list_det(s1.drop_first(), t1, s2.drop_first(), t2);
    }
}

pub proof fn lemma_vt_list_det(s1: Seq<VerificationTypeInfo>, t1: Seq<u8>, s2: Seq<VerificationTypeInfo>, t2: Seq<u8>)
    requires
        s1.len() == s2.len(),
        wf_verification_list(s1),
        wf_verification_list(s2),
        enc_verification_list(s1) + t1 == enc_verification_list(s2) + t2,
    ensures
        t1 == t2,
    decreases s1.len(),
{
    if s1.len() == 0 {
        assert(enc_verification_list(s1) + t1 =~= t1);
        assert(enc_verification_list(s2) + t2 =~= t2);
    } else {
        assert(enc_verification_list(s1) + t1 =~= enc_verification_type(s1[0]) + (enc_verification_list(s1.drop_first()) + t1));
        assert(enc_verification_list(s2) + t2 =~= enc_verification_type(s2[0]) + (enc_verification_list(s2.drop_first()) + t2));
        lemma_vt_det(
            s1[0],
            enc_verification_list(s1.drop_first()) + t1,
            s2[0],
            enc_verification_list(s2.drop_first()) + t2,
        );
        assert(wf_verification_list(s1.drop_first())) by {
            assert(forall|i: int|
                0 <= i < s1.drop_first().len() ==> #[trigger] s1.drop_first()[i] == s1[i + 1]);
        }
        assert(wf_verification_list(s2.drop_first())) by {
            assert(forall|i: int|
                0 <= i < s2.drop_first().len() ==> #[trigger] s2.drop_first()[i] == s2[i + 1]);
        }
        lemma_vt_list_det(s1.drop_first(), t1, s2.drop_first(), t2);
    }
}


/// The leading frame-type byte of a stack-map frame's wire form.
proof fn lemma_frame_head(f: StackMapFrame, t: Seq<u8>)
    ensures
        (enc_stack_map_frame(f) + t).len() > 0,
        match f {
    StackMapFrame::SameFrame { frame_type } => (enc_stack_map_frame(f) + t)[0]
    == frame_type,
    StackMapFrame::SameLocals1StackItemFrame { frame_type, .. } => (enc_stack_map_frame(f)
        + t)[0] == frame_type,
    StackMapFrame::SameLocals1StackItemFrameExtended { frame_type, .. } => (
        enc_stack_map_frame(f) + t)[0] == frame_type,
    StackMapFrame::ChopFrame { frame_type, .. } => (enc_stack_map_frame(f) + t)[0]
    == frame_type,
    StackMapFrame::SameFrameExtended { frame_type, .. } => (enc_stack_map_frame(f) + t)[0]
    == frame_type,
    StackMapFrame::AppendFrame { frame_type, .. } => (enc_stack_map_frame(f) + t)[0]
    == frame_type,
    StackMapFrame::FullFrame { frame_type, .. } => (enc_stack_map_frame(f) + t)[0]
    == frame_type,
},
{
}

#[verifier::rlimit(100)]
#[verifier::spinoff_prover]
pub proof fn lemma_frame_det(f1: StackMapFrame, t1: Seq<u8>, f2: StackMapFrame, t2: Seq<u8>)
    requires
        wf_stack_map_frame(f1),
        wf_stack_map_frame(f2),
        enc_stack_map_frame(f1) + t1 == enc_stack_map_frame(f2) + t2,
    ensures
        t1 == t2,
{
    lemma_frame_head(f1, t1);
    lemma_frame_head(f2, t2);
    match (f1, f2) {
        (
            StackMapFrame::SameFrame { frame_type: g1 },
            StackMapFrame::SameFrame { frame_type: g2 },
        ) => {
            assert(enc_stack_map_frame(f1) + t1 =~= seq![g1] + t1);
            assert(enc_stack_map_frame(f2) + t2 =~= seq![g2] + t2);
            lemma_cat_split(seq![g1], t1, seq![g2], t2);
        },
        (
            StackMapFrame::SameLocals1StackItemFrame { frame_type: g1, stack: s1 },
            StackMapFrame::SameLocals1StackItemFrame { frame_type: g2, stack: s2 },
        ) => {
            assert(enc_stack_map_frame(f1) + t1 =~= seq![g1] + (enc_verification_list(s1@) + t1));
            assert(enc_stack_map_frame(f2) + t2 =~= seq![g2] + (enc_verification_list(s2@) + t2));
            lemma_cat_split(
                seq![g1],
                enc_verification_list(s1@) + t1,
                seq![g2],
                enc_verification_list(s2@) + t2,
            );
            lemma_vt_list_det(s1@, t1, s2@, t2);
        },
        (
            StackMapFrame::SameLocals1StackItemFrameExtended {
                frame_type: g1,
                offset_delta: d1,
                stack: s1,
            },
            StackMapFrame::SameLocals1StackItemFrameExtended {
                frame_type: g2,
                offset_delta: d2,
                stack: s2,
            },
        ) => {
            assert(enc_stack_map_frame(f1) + t1 =~= seq![g1] + (be16(d1) + (enc_verification_list(
                            s1@,
                        ) + t1)));
            assert(enc_stack_map_frame(f2) + t2 =~= seq![g2] + (be16(d2) + (enc_verification_list(
                            s2@,
                        ) + t2)));
            lemma_cat_split(
                seq![g1],
                be16(d1) + (enc_verification_list(s1@) + t1),
                seq![g2],
                be16(d2) + (enc_verification_list(s2@) + t2),
            );
            lemma_be16_det(d1, enc_verification_list(s1@) + t1, d2, enc_verification_list(s2@) + t2);
            lemma_vt_list_det(s1@, t1, s2@, t2);
        },
        (
            StackMapFrame::ChopFrame { frame_type: g1, offset_delta: d1 },
            StackMapFrame::ChopFrame { frame_type: g2, offset_delta: d2 },
        ) => {
            assert(enc_stack_map_frame(f1) + t1 =~= seq![g1] + (be16(d1) + t1));
            assert(enc_stack_map_frame(f2) + t2 =~= seq![g2] + (be16(d2) + t2));
            lemma_cat_split(seq![g1], be16(d1) + t1, seq![g2], be16(d2) + t2);
            lemma_be16_det(d1, t1, d2, t2);
        },
        (
            StackMapFrame::SameFrameExtended { frame_type: g1, offset_delta: d1 },
            StackMapFrame::SameFrameExtended { frame_type: g2, offset_delta: d2 },
        ) => {
            assert(enc_stack_map_frame(f1) + t1 =~= seq![g1] + (be16(d1) + t1));
            assert(enc_stack_map_frame(f2) + t2 =~= seq![g2] + (be16(d2) + t2));
            lemma_cat_split(seq![g1], be16(d1) + t1, seq![g2], be16(d2) + t2);
            lemma_be16_det(d1, t1, d2, t2);
        },
        (
            StackMapFrame::AppendFrame { frame_type: g1, offset_delta: d1, locals: s1 },
            StackMapFrame::AppendFrame { frame_type: g2, offset_delta: d2, locals: s2 },
        ) => {
            assert(enc_stack_map_frame(f1) + t1 =~= seq![g1] + (be16(d1) + (enc_verification_list(
                            s1@,
                        ) + t1)));
            assert(enc_stack_map_frame(f2) + t2 =~= seq![g2] + (be16(d2) + (enc_verification_list(
                            s2@,
                        ) + t2)));
            lemma_cat_split(
                seq![g1],
                be16(d1) + (enc_verification_list(s1@) + t1),
                seq![g2],
                be16(d2) + (enc_verification_list(s2@) + t2),
            );
            lemma_be16_det(d1, enc_verification_list(s1@) + t1, d2, enc_verification_list(s2@) + t2);
            lemma_vt_list_det(s1@, t1, s2@, t2);
        },
        (
            StackMapFrame::FullFrame {
                frame_type: g1,
                offset_delta: d1,
                number_of_locals: nl1,
                locals: l1,
                number_of_stack_items: ns1,
                stack: s1,
            },
            StackMapFrame::FullFrame {
                frame_type: g2,
                offset_delta: d2,
                number_of_locals: nl2,
                locals: l2,
                number_of_stack_items: ns2,
                stack: s2,
            },
        ) => {
            assert(enc_stack_map_frame(f1) + t1 =~= seq![g1] + (be16(d1) + (be16(nl1) + (
                            enc_verification_list(l1@) + (be16(ns1) + (enc_verification_list(s1@) + t1))))));
            assert(enc_stack_map_frame(f2) + t2 =~= seq![g2] + (be16(d2) + (be16(nl2) + (
                            enc_verification_list(l2@) + (be16(ns2) + (enc_verification_list(s2@) + t2))))));
            lemma_cat_split(
                seq![g1],
                be16(d1) + (be16(nl1) + (enc_verification_list(l1@) + (be16(ns1) + (
                                enc_verification_list(s1@) + t1)))),
                seq![g2],
                be16(d2) + (be16(nl2) + (enc_verification_list(l2@) + (be16(ns2) + (
                                enc_verification_list(s2@) + t2)))),
            );
            lemma_be16_det(
                d1,
                be16(nl1) + (enc_verification_list(l1@) + (be16(ns1) + (enc_verification_list(s1@)
                            + t1))),
                d2,
                be16(nl2) + (enc_verification_list(l2@) + (be16(ns2) + (enc_verification_list(s2@)
                            + t2))),
            );
            lemma_be16_det(
                nl1,
                enc_verification_list(l1@) + (be16(ns1) + (enc_verification_list(s1@) + t1)),
                nl2,
                enc_verification_list(l2@) + (be16(ns2) + (enc_verification_list(s2@) + t2)),
            );
            lemma_vt_list_det(
                l1@,
                be16(ns1) + (enc_verification_list(s1@) + t1),
                l2@,
                be16(ns2) + (enc_verification_list(s2@) + t2),
            );
            lemma_be16_det(
                ns1,
                enc_verification_list(s1@) + t1,
                ns2,
                enc_verification_list(s2@) + t2,
            );
            lemma_vt_list_det(s1@, t1, s2@, t2);
        },
        _ => {
            assert(false);
        },
    }
}

pub proof fn lemma_frame_list_det(
    s1: Seq<StackMapFrame>,
    t1: Seq<u8>,
    s2: Seq<StackMapFrame>,
    t2: Seq<u8>,
)
    requires
        s1.len() == s2.len(),
        wf_frame_list(s1),
        wf_frame_list(s2),
        enc_frame_list(s1) + t1 == enc_frame_list(s2) + t2,
    ensures
        t1 == t2,
    decreases s1.len(),
{
    if s1.len() == 0 {
        assert(enc_frame_list(s1) + t1 =~= t1);
        assert(enc_frame_list(s2) + t2 =~= t2);
    } else {
        assert(enc_frame_list(s1) + t1 =~= enc_stack_map_frame(s1[0]) + (enc_frame_list(
                    s1.drop_first(),
                ) + t1));
        assert(enc_frame_list(s2) + t2 =~= enc_stack_map_frame(s2[0]) + (enc_frame_list(
                    s2.drop_first(),
                ) + t2));
        lemma_frame_det(
            s1[0],
            enc_frame_list(s1.drop_first()) + t1,
            s2[0],
            enc_frame_list(s2.drop_first()) + t2,
        );
        assert(wf_frame_list(s1.drop_first())) by {
            assert(forall|i: int|
                0 <= i < s1.drop_first().len() ==> #[trigger] s1.drop_first()[i] == s1[i + 1]);
        }
        assert(wf_frame_list(s2.drop_first())) by {
            assert(forall|i: int|
                0 <= i < s2.drop_first().len() ==> #[trigger] s2.drop_first()[i] == s2[i + 1]);
        }
        lemma_frame_list_det(s1.drop_first(), t1, s2.drop_first(), t2);
    }
}

/// The first two bytes of an attribute's wire form carry its name index,
/// whichever shape it has.
proof fn lemma_attribute_head(a: Attribute, t: Seq<u8>)
    ensures
        (enc_attribute(a) + t).len() >= 2,
        (enc_attribute(a) + t)[0] == be16(crate::attribute::spec_attribute_name_index(a))[0],
        (enc_attribute(a) + t)[1] == be16(crate::attribute::spec_attribute_name_index(a))[1],
{
    match a {
        Attribute::General(_) => {},
        Attribute::ConstantValue(_) => {},
        Attribute::Code(_) => {},
        Attribute::StackMapTable(_) => {},
        Attribute::BootstrapMethods(_) => {},
        Attribute::MethodParameters(_) => {},
        Attribute::Module(_) => {},
        Attribute::NestHost(_) => {},
        Attribute::NestMembers(_) => {},
        Attribute::PermittedSubclasses(_) => {},
    }
}

/// An attribute well-formed against a pool, and what follows it, leave the
/// following bytes determined: the resolved name picks the shape, and the
/// shape's counts pick every list length.

proof fn lemma_att_det_general(
    pool: Seq<CpInfo>,
    a1: Attribute,
    t1: Seq<u8>,
    a2: Attribute,
    t2: Seq<u8>,
)
    requires
        a1 is General,
        a2 is General,
        wf_attribute(pool, a1),
        wf_attribute(pool, a2),
        enc_attribute(a1) + t1 == enc_attribute(a2) + t2,
    ensures
        t1 == t2,
    decreases a1, 0int,
{
    let g1 = a1->General_0;
    let g2 = a2->General_0;
    assert(enc_attribute(a1) + t1 =~= be16(g1.attribute_name_index) + (be32(
                g1.attribute_length,
            ) + (g1.info@ + t1)));
    assert(enc_attribute(a2) + t2 =~= be16(g2.attribute_name_index) + (be32(
                g2.attribute_length,
            ) + (g2.info@ + t2)));
    lemma_be16_det(
        g1.attribute_name_index,
        be32(g1.attribute_length) + (g1.info@ + t1),
        g2.attribute_name_index,
        be32(g2.attribute_length) + (g2.info@ + t2),
    );
    lemma_be32_det(g1.attribute_length, g1.info@ + t1, g2.attribute_length, g2.info@ + t2);
    lemma_cat_split(g1.info@, t1, g2.info@, t2);
}

proof fn lemma_att_det_constantvalue(
    pool: Seq<CpInfo>,
    a1: Attribute,
    t1: Seq<u8>,
    a2: Attribute,
    t2: Seq<u8>,
)
    requires
        a1 is ConstantValue,
        a2 is ConstantValue,
        wf_attribute(pool, a1),
        wf_attribute(pool, a2),
        enc_attribute(a1) + t1 == enc_attribute(a2) + t2,
    ensures
        t1 == t2,
    decreases a1, 0int,
{
    let c1 = a1->ConstantValue_0;
    let c2 = a2->ConstantValue_0;
    assert(enc_attribute(a1) + t1 =~= be16(c1.attribute_name_index) + (be32(
                c1.attribute_length,
            ) + (be16(c1.constantvalue_index) + t1)));
    assert(enc_attribute(a2) + t2 =~= be16(c2.attribute_name_index) + (be32(
                c2.attribute_length,
            ) + (be16(c2.constantvalue_index) + t2)));
    lemma_be16_det(
        c1.attribute_name_index,
        be32(c1.attribute_length) + (be16(c1.constantvalue_index) + t1),
        c2.attribute_name_index,
        be32(c2.attribute_length) + (be16(c2.constantvalue_index) + t2),
    );
    lemma_be32_det(
        c1.attribute_length,
        be16(c1.constantvalue_index) + t1,
        c2.attribute_length,
        be16(c2.constantvalue_index) + t2,
    );
    lemma_be16_det(c1.constantvalue_index, t1, c2.constantvalue_index, t2);
}

#[verifier::rlimit(100)]
#[verifier::spinoff_prover]
proof fn lemma_att_det_code(
    pool: Seq<CpInfo>,
    a1: Attribute,
    t1: Seq<u8>,
    a2: Attribute,
    t2: Seq<u8>,
)
    requires
        a1 is Code,
        a2 is Code,
        wf_attribute(pool, a1),
        wf_attribute(pool, a2),
        enc_attribute(a1) + t1 == enc_attribute(a2) + t2,
    ensures
        t1 == t2,
    decreases a1, 0int,
{
    let c1 = a1->Code_0;
    let c2 = a2->Code_0;
    assert(enc_attribute(a1) + t1 =~= be16(c1.attribute_name_index) + (be32(
                c1.attribute_length,
            ) + (be16(c1.max_stack) + (be16(c1.max_locals) + (be32(c1.code_length) + (c1.code@ + (
                                be16(c1.exception_table_length) + (enc_exception_list(c1.exception_table@) + (be16(
                                            c1.attributes_count,
                                        ) + (enc_attribute_list(c1.attributes@) + t1))))))))));
    assert(enc_attribute(a2) + t2 =~= be16(c2.attribute_name_index) + (be32(
                c2.attribute_length,
            ) + (be16(c2.max_stack) + (be16(c2.max_locals) + (be32(c2.code_length) + (c2.code@ + (
                                be16(c2.exception_table_length) + (enc_exception_list(c2.exception_table@) + (be16(
                                            c2.attributes_count,
                                        ) + (enc_attribute_list(c2.attributes@) + t2))))))))));
    lemma_be16_det(
        c1.attribute_name_index,
        be32(c1.attribute_length) + (be16(c1.max_stack) + (be16(c1.max_locals) + (be32(
                        c1.code_length,
                    ) + (c1.code@ + (be16(c1.exception_table_length) + (enc_exception_list(
                                    c1.exception_table@,
                                ) + (be16(c1.attributes_count) + (enc_attribute_list(c1.attributes@) + t1)))))))),
        c2.attribute_name_index,
        be32(c2.attribute_length) + (be16(c2.max_stack) + (be16(c2.max_locals) + (be32(
                        c2.code_length,
                    ) + (c2.code@ + (be16(c2.exception_table_length) + (enc_exception_list(
                                    c2.exception_table@,
                                ) + (be16(c2.attributes_count) + (enc_attribute_list(c2.attributes@) + t2)))))))),
    );
    lemma_be32_det(
        c1.attribute_length,
        be16(c1.max_stack) + (be16(c1.max_locals) + (be32(c1.code_length) + (c1.code@ + (
                        be16(c1.exception_table_length) + (enc_exception_list(c1.exception_table@) + (be16(
                                    c1.attributes_count,
                                ) + (enc_attribute_list(c1.attributes@) + t1))))))),
        c2.attribute_length,
        be16(c2.max_stack) + (be16(c2.max_locals) + (be32(c2.code_length) + (c2.code@ + (
                        be16(c2.exception_table_length) + (enc_exception_list(c2.exception_table@) + (be16(
                                    c2.attributes_count,
                                ) + (enc_attribute_list(c2.attributes@) + t2))))))),
    );
    lemma_be16_det(
        c1.max_stack,
        be16(c1.max_locals) + (be32(c1.code_length) + (c1.code@ + (be16(
                        c1.exception_table_length,
                    ) + (enc_exception_list(c1.exception_table@) + (be16(c1.attributes_count) + (
                                enc_attribute_list(c1.attributes@) + t1)))))),
        c2.max_stack,
        be16(c2.max_locals) + (be32(c2.code_length) + (c2.code@ + (be16(
                        c2.exception_table_length,
                    ) + (enc_exception_list(c2.exception_table@) + (be16(c2.attributes_count) + (
                                enc_attribute_list(c2.attributes@) + t2)))))),
    );
    lemma_be16_det(
        c1.max_locals,
        be32(c1.code_length) + (c1.code@ + (be16(c1.exception_table_length) + (
                    enc_exception_list(c1.exception_table@) + (be16(c1.attributes_count) + (
                            enc_attribute_list(c1.attributes@) + t1))))),
        c2.max_locals,
        be32(c2.code_length) + (c2.code@ + (be16(c2.exception_table_length) + (
                    enc_exception_list(c2.exception_table@) + (be16(c2.attributes_count) + (
                            enc_attribute_list(c2.attributes@) + t2))))),
    );
    lemma_be32_det(
        c1.code_length,
        c1.code@ + (be16(c1.exception_table_length) + (enc_exception_list(
                    c1.exception_table@,
                ) + (be16(c1.attributes_count) + (enc_attribute_list(c1.attributes@) + t1)))),
        c2.code_length,
        c2.code@ + (be16(c2.exception_table_length) + (enc_exception_list(
                    c2.exception_table@,
                ) + (be16(c2.attributes_count) + (enc_attribute_list(c2.attributes@) + t2)))),
    );
    lemma_cat_split(
        c1.code@,
        be16(c1.exception_table_length) + (enc_exception_list(c1.exception_table@) + (be16(
                    c1.attributes_count,
                ) + (enc_attribute_list(c1.attributes@) + t1))),
        c2.code@,
        be16(c2.exception_table_length) + (enc_exception_list(c2.exception_table@) + (be16(
                    c2.attributes_count,
                ) + (enc_attribute_list(c2.attributes@) + t2))),
    );
    lemma_be16_det(
        c1.exception_table_length,
        enc_exception_list(c1.exception_table@) + (be16(c1.attributes_count) + (
                enc_attribute_list(c1.attributes@) + t1)),
        c2.exception_table_length,
        enc_exception_list(c2.exception_table@) + (be16(c2.attributes_count) + (
                enc_attribute_list(c2.attributes@) + t2)),
    );
    lemma_exception_list_det(
        c1.exception_table@,
        be16(c1.attributes_count) + (enc_attribute_list(c1.attributes@) + t1),
        c2.exception_table@,
        be16(c2.attributes_count) + (enc_attribute_list(c2.attributes@) + t2),
    );
    lemma_be16_det(
        c1.attributes_count,
        enc_attribute_list(c1.attributes@) + t1,
        c2.attributes_count,
        enc_attribute_list(c2.attributes@) + t2,
    );
    lemma_attribute_list_det(pool, c1.attributes@, t1, c2.attributes@, t2);
}

proof fn lemma_att_det_stackmaptable(
    pool: Seq<CpInfo>,
    a1: Attribute,
    t1: Seq<u8>,
    a2: Attribute,
    t2: Seq<u8>,
)
    requires
        a1 is StackMapTable,
        a2 is StackMapTable,
        wf_attribute(pool, a1),
        wf_attribute(pool, a2),
        enc_attribute(a1) + t1 == enc_attribute(a2) + t2,
    ensures
        t1 == t2,
    decreases a1, 0int,
{
    let s1 = a1->StackMapTable_0;
    let s2 = a2->StackMapTable_0;
    assert(enc_attribute(a1) + t1 =~= be16(s1.attribute_name_index) + (be32(
                s1.attribute_length,
            ) + (be16(s1.number_of_entries) + (enc_frame_list(s1.entries@) + t1))));
    assert(enc_attribute(a2) + t2 =~= be16(s2.attribute_name_index) + (be32(
                s2.attribute_length,
            ) + (be16(s2.number_of_entries) + (enc_frame_list(s2.entries@) + t2))));
    lemma_be16_det(
        s1.attribute_name_index,
        be32(s1.attribute_length) + (be16(s1.number_of_entries) + (enc_frame_list(
                    s1.entries@,
                ) + t1)),
        s2.attribute_name_index,
        be32(s2.attribute_length) + (be16(s2.number_of_entries) + (enc_frame_list(
                    s2.entries@,
                ) + t2)),
    );
    lemma_be32_det(
        s1.attribute_length,
        be16(s1.number_of_entries) + (enc_frame_list(s1.entries@) + t1),
        s2.attribute_length,
        be16(s2.number_of_entries) + (enc_frame_list(s2.entries@) + t2),
    );
    lemma_be16_det(
        s1.number_of_entries,
        enc_frame_list(s1.entries@) + t1,
        s2.number_of_entries,
        enc_frame_list(s2.entries@) + t2,
    );
    lemma_frame_list_det(s1.entries@, t1, s2.entries@, t2);
}

proof fn lemma_att_det_bootstrapmethods(
    pool: Seq<CpInfo>,
    a1: Attribute,
    t1: Seq<u8>,
    a2: Attribute,
    t2: Seq<u8>,
)
    requires
        a1 is BootstrapMethods,
        a2 is BootstrapMethods,
        wf_attribute(pool, a1),
        wf_attribute(pool, a2),
        enc_attribute(a1) + t1 == enc_attribute(a2) + t2,
    ensures
        t1 == t2,
    decreases a1, 0int,
{
    let b1 = a1->BootstrapMethods_0;
    let b2 = a2->BootstrapMethods_0;
    assert(enc_attribute(a1) + t1 =~= be16(b1.attribute_name_index) + (be32(
                b1.attribute_length,
            ) + (be16(b1.num_bootstrap_methods) + (enc_bootstrap_list(b1.bootstrap_methods@)
                    + t1))));
    assert(enc_attribute(a2) + t2 =~= be16(b2.attribute_name_index) + (be32(
                b2.attribute_length,
            ) + (be16(b2.num_bootstrap_methods) + (enc_bootstrap_list(b2.bootstrap_methods@)
                    + t2))));
    lemma_be16_det(
        b1.attribute_name_index,
        be32(b1.attribute_length) + (be16(b1.num_bootstrap_methods) + (enc_bootstrap_list(
                    b1.bootstrap_methods@,
                ) + t1)),
        b2.attribute_name_index,
        be32(b2.attribute_length) + (be16(b2.num_bootstrap_methods) + (enc_bootstrap_list(
                    b2.bootstrap_methods@,
                ) + t2)),
    );
    lemma_be32_det(
        b1.attribute_length,
        be16(b1.num_bootstrap_methods) + (enc_bootstrap_list(b1.bootstrap_methods@) + t1),
        b2.attribute_length,
        be16(b2.num_bootstrap_methods) + (enc_bootstrap_list(b2.bootstrap_methods@) + t2),
    );
    lemma_be16_det(
        b1.num_bootstrap_methods,
        enc_bootstrap_list(b1.bootstrap_methods@) + t1,
        b2.num_bootstrap_methods,
        enc_bootstrap_list(b2.bootstrap_methods@) + t2,
    );
    lemma_bootstrap_list_det(b1.bootstrap_methods@, t1, b2.bootstrap_methods@, t2);
}

proof fn lemma_att_det_methodparameters(
    pool: Seq<CpInfo>,
    a1: Attribute,
    t1: Seq<u8>,
    a2: Attribute,
    t2: Seq<u8>,
)
    requires
        a1 is MethodParameters,
        a2 is MethodParameters,
        wf_attribute(pool, a1),
        wf_attribute(pool, a2),
        enc_attribute(a1) + t1 == enc_attribute(a2) + t2,
    ensures
        t1 == t2,
    decreases a1, 0int,
{
    let m1 = a1->MethodParameters_0;
    let m2 = a2->MethodParameters_0;
    assert(enc_attribute(a1) + t1 =~= be16(m1.attribute_name_index) + (be32(
                m1.attribute_length,
            ) + (seq![m1.parameters_count] + (enc_parameter_list(m1.parameters@) + t1))));
    assert(enc_attribute(a2) + t2 =~= be16(m2.attribute_name_index) + (be32(
                m2.attribute_length,
            ) + (seq![m2.parameters_count] + (enc_parameter_list(m2.parameters@) + t2))));
    lemma_be16_det(
        m1.attribute_name_index,
        be32(m1.attribute_length) + (seq![m1.parameters_count] + (enc_parameter_list(
                    m1.parameters@,
                ) + t1)),
        m2.attribute_name_index,
        be32(m2.attribute_length) + (seq![m2.parameters_count] + (enc_parameter_list(
                    m2.parameters@,
                ) + t2)),
    );
    lemma_be32_det(
        m1.attribute_length,
        seq![m1.parameters_count] + (enc_parameter_list(m1.parameters@) + t1),
        m2.attribute_length,
        seq![m2.parameters_count] + (enc_parameter_list(m2.parameters@) + t2),
    );
    lemma_cat_split(
        seq![m1.parameters_count],
        enc_parameter_list(m1.parameters@) + t1,
        seq![m2.parameters_count],
        enc_parameter_list(m2.parameters@) + t2,
    );
    assert(m1.parameters_count == m2.parameters_count) by {
        assert(seq![m1.parameters_count][0] == seq![m2.parameters_count][0]);
    }
    lemma_parameter_list_det(m1.parameters@, t1, m2.parameters@, t2);
}

/// The list sections of a module attribute, from the requires count on,
/// determine what follows them.
#[verifier::rlimit(100)]
#[verifier::spinoff_prover]
proof fn lemma_module_sections_det(
    m1: crate::attribute::ModuleAttribute,
    t1: Seq<u8>,
    m2: crate::attribute::ModuleAttribute,
    t2: Seq<u8>,
)
    requires
        wf_export_list_all(m1.exports@),
        wf_export_list_all(m2.exports@),
        wf_open_list_all(m1.opens@),
        wf_open_list_all(m2.opens@),
        wf_provide_list_all(m1.provides@),
        wf_provide_list_all(m2.provides@),
        m1.requires_count == m1.requires@.len(),
        m2.requires_count == m2.requires@.len(),
        m1.exports_count == m1.exports@.len(),
        m2.exports_count == m2.exports@.len(),
        m1.opens_count == m1.opens@.len(),
        m2.opens_count == m2.opens@.len(),
        m1.uses_count == m1.uses_index@.len(),
        m2.uses_count == m2.uses_index@.len(),
        m1.provides_count == m1.provides@.len(),
        m2.provides_count == m2.provides@.len(),
        be16(m1.requires_count) + (enc_require_list(m1.requires@) + (be16(m1.exports_count) + (
        enc_export_list(m1.exports@) + (be16(m1.opens_count) + (enc_open_list(m1.opens@) + (be16(
        m1.uses_count,
        ) + (enc_u16_list(m1.uses_index@) + (be16(m1.provides_count) + (enc_provide_list(
        m1.provides@,
        ) + t1))))))))) == be16(m2.requires_count) + (enc_require_list(m2.requires@) + (be16(
        m2.exports_count,
        ) + (enc_export_list(m2.exports@) + (be16(m2.opens_count) + (enc_open_list(m2.opens@) + (
        be16(m2.uses_count) + (enc_u16_list(m2.uses_index@) + (be16(m2.provides_count) + (
        enc_provide_list(m2.provides@) + t2))))))))),
    ensures
        t1 == t2,
{
    let u1 = be16(m1.provides_count) + (enc_provide_list(m1.provides@) + t1);
    let u2 = be16(m2.provides_count) + (enc_provide_list(m2.provides@) + t2);
    let v1 = be16(m1.uses_count) + (enc_u16_list(m1.uses_index@) + u1);
    let v2 = be16(m2.uses_count) + (enc_u16_list(m2.uses_index@) + u2);
    let w1 = be16(m1.opens_count) + (enc_open_list(m1.opens@) + v1);
    let w2 = be16(m2.opens_count) + (enc_open_list(m2.opens@) + v2);
    let x1 = be16(m1.exports_count) + (enc_export_list(m1.exports@) + w1);
    let x2 = be16(m2.exports_count) + (enc_export_list(m2.exports@) + w2);
    lemma_be16_det(
        m1.requires_count,
        enc_require_list(m1.requires@) + x1,
        m2.requires_count,
        enc_require_list(m2.requires@) + x2,
    );
    lemma_require_list_det(m1.requires@, x1, m2.requires@, x2);
    lemma_be16_det(
        m1.exports_count,
        enc_export_list(m1.exports@) + w1,
        m2.exports_count,
        enc_export_list(m2.exports@) + w2,
    );
    lemma_export_list_det(m1.exports@, w1, m2.exports@, w2);
    lemma_be16_det(
        m1.opens_count,
        enc_open_list(m1.opens@) + v1,
        m2.opens_count,
        enc_open_list(m2.opens@) + v2,
    );
    lemma_open_list_det(m1.opens@, v1, m2.opens@, v2);
    lemma_be16_det(
        m1.uses_count,
        enc_u16_list(m1.uses_index@) + u1,
        m2.uses_count,
        enc_u16_list(m2.uses_index@) + u2,
    );
    lemma_u16_list_det(m1.uses_index@, u1, m2.uses_index@, u2);
    lemma_be16_det(
        m1.provides_count,
        enc_provide_list(m1.provides@) + t1,
        m2.provides_count,
        enc_provide_list(m2.provides@) + t2,
    );
    lemma_provide_list_det(m1.provides@, t1, m2.provides@, t2);
}

/// Regrouping a module attribute's wire form for peeling from the left.
#[verifier::rlimit(100)]
#[verifier::spinoff_prover]
proof fn lemma_module_reassoc(m: crate::attribute::ModuleAttribute, t: Seq<u8>)
    ensures
        enc_attribute(Attribute::Module(m)) + t == be16(m.attribute_name_index) + (be32(
        m.attribute_length,
        ) + (be16(m.module_name_index) + (be16(m.module_flags) + (be16(m.module_version_index) + (
        be16(m.requires_count) + (enc_require_list(m.requires@) + (be16(m.exports_count) + (
        enc_export_list(m.exports@) + (be16(m.opens_count) + (enc_open_list(m.opens@) + (be16(
        m.uses_count,
        ) + (enc_u16_list(m.uses_index@) + (be16(m.provides_count) + (enc_provide_list(m.provides@)
        + t)))))))))))))),
{
    assert(enc_attribute(Attribute::Module(m)) + t =~= be16(m.attribute_name_index) + (be32(
                m.attribute_length,
            ) + (be16(m.module_name_index) + (be16(m.module_flags) + (be16(m.module_version_index) + (be16(
                                m.requires_count,
                            ) + (enc_require_list(m.requires@) + (be16(m.exports_count) + (enc_export_list(m.exports@) + (
                                            be16(m.opens_count) + (enc_open_list(m.opens@) + (be16(m.uses_count) + (enc_u16_list(
                                                            m.uses_index@,
                                                        ) + (be16(m.provides_count) + (enc_provide_list(m.provides@) + t)))))))))))))));
}

#[verifier::rlimit(100)]
#[verifier::spinoff_prover]
proof fn lemma_att_det_module(
    pool: Seq<CpInfo>,
    a1: Attribute,
    t1: Seq<u8>,
    a2: Attribute,
    t2: Seq<u8>,
)
    requires
        a1 is Module,
        a2 is Module,
        wf_attribute(pool, a1),
        wf_attribute(pool, a2),
        enc_attribute(a1) + t1 == enc_attribute(a2) + t2,
    ensures
        t1 == t2,
    decreases a1, 0int,
{
    let m1 = a1->Module_0;
    let m2 = a2->Module_0;
    let y1 = be16(m1.requires_count) + (enc_require_list(m1.requires@) + (be16(m1.exports_count)
            + (enc_export_list(m1.exports@) + (be16(m1.opens_count) + (enc_open_list(m1.opens@) + (
                            be16(m1.uses_count) + (enc_u16_list(m1.uses_index@) + (be16(m1.provides_count) + (
                                        enc_provide_list(m1.provides@) + t1)))))))));
    let y2 = be16(m2.requires_count) + (enc_require_list(m2.requires@) + (be16(m2.exports_count)
            + (enc_export_list(m2.exports@) + (be16(m2.opens_count) + (enc_open_list(m2.opens@) + (
                            be16(m2.uses_count) + (enc_u16_list(m2.uses_index@) + (be16(m2.provides_count) + (
                                        enc_provide_list(m2.provides@) + t2)))))))));
    lemma_module_reassoc(m1, t1);
    lemma_module_reassoc(m2, t2);
    assert(enc_attribute(a1) + t1 == be16(m1.attribute_name_index) + (be32(m1.attribute_length)
            + (be16(m1.module_name_index) + (be16(m1.module_flags) + (be16(m1.module_version_index)
                        + y1)))));
    assert(enc_attribute(a2) + t2 == be16(m2.attribute_name_index) + (be32(m2.attribute_length)
            + (be16(m2.module_name_index) + (be16(m2.module_flags) + (be16(m2.module_version_index)
                        + y2)))));
    lemma_be16_det(
        m1.attribute_name_index,
        be32(m1.attribute_length) + (be16(m1.module_name_index) + (be16(m1.module_flags) + (be16(
                        m1.module_version_index,
                    ) + y1))),
        m2.attribute_name_index,
        be32(m2.attribute_length) + (be16(m2.module_name_index) + (be16(m2.module_flags) + (be16(
                        m2.module_version_index,
                    ) + y2))),
    );
    lemma_be32_det(
        m1.attribute_length,
        be16(m1.module_name_index) + (be16(m1.module_flags) + (be16(m1.module_version_index)
                + y1)),
        m2.attribute_length,
        be16(m2.module_name_index) + (be16(m2.module_flags) + (be16(m2.module_version_index)
                + y2)),
    );
    lemma_be16_det(
        m1.module_name_index,
        be16(m1.module_flags) + (be16(m1.module_version_index) + y1),
        m2.module_name_index,
        be16(m2.module_flags) + (be16(m2.module_version_index) + y2),
    );
    lemma_be16_det(
        m1.module_flags,
        be16(m1.module_version_index) + y1,
        m2.module_flags,
        be16(m2.module_version_index) + y2,
    );
    lemma_be16_det(m1.module_version_index, y1, m2.module_version_index, y2);
    lemma_module_sections_det(m1, t1, m2, t2);
}

proof fn lemma_att_det_nesthost(
    pool: Seq<CpInfo>,
    a1: Attribute,
    t1: Seq<u8>,
    a2: Attribute,
    t2: Seq<u8>,
)
    requires
        a1 is NestHost,
        a2 is NestHost,
        wf_attribute(pool, a1),
        wf_attribute(pool, a2),
        enc_attribute(a1) + t1 == enc_attribute(a2) + t2,
    ensures
        t1 == t2,
    decreases a1, 0int,
{
    let n1 = a1->NestHost_0;
    let n2 = a2->NestHost_0;
    assert(enc_attribute(a1) + t1 =~= be16(n1.attribute_name_index) + (be32(
                n1.attribute_length,
            ) + (be16(n1.host_class_index) + t1)));
    assert(enc_attribute(a2) + t2 =~= be16(n2.attribute_name_index) + (be32(
                n2.attribute_length,
            ) + (be16(n2.host_class_index) + t2)));
    lemma_be16_det(
        n1.attribute_name_index,
        be32(n1.attribute_length) + (be16(n1.host_class_index) + t1),
        n2.attribute_name_index,
        be32(n2.attribute_length) + (be16(n2.host_class_index) + t2),
    );
    lemma_be32_det(
        n1.attribute_length,
        be16(n1.host_class_index) + t1,
        n2.attribute_length,
        be16(n2.host_class_index) + t2,
    );
    lemma_be16_det(n1.host_class_index, t1, n2.host_class_index, t2);
}

proof fn lemma_att_det_nestmembers(
    pool: Seq<CpInfo>,
    a1: Attribute,
    t1: Seq<u8>,
    a2: Attribute,
    t2: Seq<u8>,
)
    requires
        a1 is NestMembers,
        a2 is NestMembers,
        wf_attribute(pool, a1),
        wf_attribute(pool, a2),
        enc_attribute(a1) + t1 == enc_attribute(a2) + t2,
    ensures
        t1 == t2,
    decreases a1, 0int,
{
    let n1 = a1->NestMembers_0;
    let n2 = a2->NestMembers_0;
    assert(enc_attribute(a1) + t1 =~= be16(n1.attribute_name_index) + (be32(
                n1.attribute_length,
            ) + (be16(n1.number_of_classes) + (enc_u16_list(n1.classes@) + t1))));
    assert(enc_attribute(a2) + t2 =~= be16(n2.attribute_name_index) + (be32(
                n2.attribute_length,
            ) + (be16(n2.number_of_classes) + (enc_u16_list(n2.classes@) + t2))));
    lemma_be16_det(
        n1.attribute_name_index,
        be32(n1.attribute_length) + (be16(n1.number_of_classes) + (enc_u16_list(n1.classes@)
                + t1)),
        n2.attribute_name_index,
        be32(n2.attribute_length) + (be16(n2.number_of_classes) + (enc_u16_list(n2.classes@)
                + t2)),
    );
    lemma_be32_det(
        n1.attribute_length,
        be16(n1.number_of_classes) + (enc_u16_list(n1.classes@) + t1),
        n2.attribute_length,
        be16(n2.number_of_classes) + (enc_u16_list(n2.classes@) + t2),
    );
    lemma_be16_det(
        n1.number_of_classes,
        enc_u16_list(n1.classes@) + t1,
        n2.number_of_classes,
        enc_u16_list(n2.classes@) + t2,
    );
    lemma_u16_list_det(n1.classes@, t1, n2.classes@, t2);
}

proof fn lemma_att_det_permittedsubclasses(
    pool: Seq<CpInfo>,
    a1: Attribute,
    t1: Seq<u8>,
    a2: Attribute,
    t2: Seq<u8>,
)
    requires
        a1 is PermittedSubclasses,
        a2 is PermittedSubclasses,
        wf_attribute(pool, a1),
        wf_attribute(pool, a2),
        enc_attribute(a1) + t1 == enc_attribute(a2) + t2,
    ensures
        t1 == t2,
    decreases a1, 0int,
{
    let p1 = a1->PermittedSubclasses_0;
    let p2 = a2->PermittedSubclasses_0;
    assert(enc_attribute(a1) + t1 =~= be16(p1.attribute_name_index) + (be32(
                p1.attribute_length,
            ) + (be16(p1.number_of_classes) + (enc_u16_list(p1.classes@) + t1))));
    assert(enc_attribute(a2) + t2 =~= be16(p2.attribute_name_index) + (be32(
                p2.attribute_length,
            ) + (be16(p2.number_of_classes) + (enc_u16_list(p2.classes@) + t2))));
    lemma_be16_det(
        p1.attribute_name_index,
        be32(p1.attribute_length) + (be16(p1.number_of_classes) + (enc_u16_list(p1.classes@)
                + t1)),
        p2.attribute_name_index,
        be32(p2.attribute_length) + (be16(p2.number_of_classes) + (enc_u16_list(p2.classes@)
                + t2)),
    );
    lemma_be32_det(
        p1.attribute_length,
        be16(p1.number_of_classes) + (enc_u16_list(p1.classes@) + t1),
        p2.attribute_length,
        be16(p2.number_of_classes) + (enc_u16_list(p2.classes@) + t2),
    );
    lemma_be16_det(
        p1.number_of_classes,
        enc_u16_list(p1.classes@) + t1,
        p2.number_of_classes,
        enc_u16_list(p2.classes@) + t2,
    );
    lemma_u16_list_det(p1.classes@, t1, p2.classes@, t2);
}

/// Two attributes well-formed against the same pool and encoding the same
/// name index have the same shape: the pool entry at that index decides it.
proof fn lemma_same_attribute_shape(pool: Seq<CpInfo>, a1: Attribute, a2: Attribute)
    requires
        wf_attribute(pool, a1),
        wf_attribute(pool, a2),
        crate::attribute::spec_attribute_name_index(a1) == crate::attribute::spec_attribute_name_index(a2),
    ensures
        (a1 is General <==> a2 is General),
        (a1 is ConstantValue <==> a2 is ConstantValue),
        (a1 is Code <==> a2 is Code),
        (a1 is StackMapTable <==> a2 is StackMapTable),
        (a1 is BootstrapMethods <==> a2 is BootstrapMethods),
        (a1 is MethodParameters <==> a2 is MethodParameters),
        (a1 is Module <==> a2 is Module),
        (a1 is NestHost <==> a2 is NestHost),
        (a1 is NestMembers <==> a2 is NestMembers),
        (a1 is PermittedSubclasses <==> a2 is PermittedSubclasses),
{
    reveal_strlit("ConstantValue");
    reveal_strlit("Code");
    reveal_strlit("StackMapTable");
    reveal_strlit("BootstrapMethods");
    reveal_strlit("MethodParameters");
    reveal_strlit("Module");
    reveal_strlit("NestHost");
    reveal_strlit("NestMembers");
    reveal_strlit("PermittedSubclasses");
    assert("ConstantValue"@.len() == 13);
    assert("Code"@.len() == 4);
    assert("StackMapTable"@.len() == 13);
    assert("BootstrapMethods"@.len() == 16);
    assert("MethodParameters"@.len() == 16);
    assert("Module"@.len() == 6);
    assert("NestHost"@.len() == 8);
    assert("NestMembers"@.len() == 11);
    assert("PermittedSubclasses"@.len() == 19);
    assert("ConstantValue"@[0] == 'C' && "StackMapTable"@[0] == 'S');
    assert("BootstrapMethods"@[0] == 'B' && "MethodParameters"@[0] == 'M');
    let n = crate::attribute::spec_attribute_name_index(a1);
    assert(cp_text_at(pool, n) == cp_text_at(pool, crate::attribute::spec_attribute_name_index(a2)));
}

/// An attribute well-formed against a pool, and what follows it, leave the
/// following bytes determined: the resolved name picks the shape, and the
/// shape's counts pick every list length.
pub proof fn lemma_attribute_det(
    pool: Seq<CpInfo>,
    a1: Attribute,
    t1: Seq<u8>,
    a2: Attribute,
    t2: Seq<u8>,
)
    requires
        wf_attribute(pool, a1),
        wf_attribute(pool, a2),
        enc_attribute(a1) + t1 == enc_attribute(a2) + t2,
    ensures
        t1 == t2,
        crate::attribute::spec_attribute_name_index(a1) == crate::attribute::spec_attribute_name_index(a2),
    decreases a1, 1int,
{
    lemma_attribute_head(a1, t1);
    lemma_attribute_head(a2, t2);
    let n1 = crate::attribute::spec_attribute_name_index(a1);
    let n2 = crate::attribute::spec_attribute_name_index(a2);
    assert(n1 == n2) by {
        assert(be16(n1)[0] == be16(n2)[0] && be16(n1)[1] == be16(n2)[1]);
        assert(n1 == 256 * (n1 / 256) + n1 % 256);
        assert(n2 == 256 * (n2 / 256) + n2 % 256);
    }
    lemma_same_attribute_shape(pool, a1, a2);
    match (a1, a2) {
        (Attribute::General(_), Attribute::General(_)) => {
            lemma_att_det_general(pool, a1, t1, a2, t2);
        },
        (Attribute::ConstantValue(_), Attribute::ConstantValue(_)) => {
            lemma_att_det_constantvalue(pool, a1, t1, a2, t2);
        },
        (Attribute::Code(_), Attribute::Code(_)) => {
            lemma_att_det_code(pool, a1, t1, a2, t2);
        },
        (Attribute::StackMapTable(_), Attribute::StackMapTable(_)) => {
            lemma_att_det_stackmaptable(pool, a1, t1, a2, t2);
        },
        (Attribute::BootstrapMethods(_), Attribute::BootstrapMethods(_)) => {
            lemma_att_det_bootstrapmethods(pool, a1, t1, a2, t2);
        },
        (Attribute::MethodParameters(_), Attribute::MethodParameters(_)) => {
            lemma_att_det_methodparameters(pool, a1, t1, a2, t2);
        },
        (Attribute::Module(_), Attribute::Module(_)) => {
            lemma_att_det_module(pool, a1, t1, a2, t2);
        },
        (Attribute::NestHost(_), Attribute::NestHost(_)) => {
            lemma_att_det_nesthost(pool, a1, t1, a2, t2);
        },
        (Attribute::NestMembers(_), Attribute::NestMembers(_)) => {
            lemma_att_det_nestmembers(pool, a1, t1, a2, t2);
        },
        (Attribute::PermittedSubclasses(_), Attribute::PermittedSubclasses(_)) => {
            lemma_att_det_permittedsubclasses(pool, a1, t1, a2, t2);
        },
        _ => {
            assert(false);
        },
    }
}

/// Two attribute lists agree pointwise on the name index of each record.
pub open spec fn atts_name_eq(s1: Seq<Attribute>, s2: Seq<Attribute>) -> bool {
    &&& s1.len() == s2.len()
    &&& forall|i: int|
        0 <= i < s1.len() ==> crate::attribute::spec_attribute_name_index(#[trigger] s1[i])
            == crate::attribute::spec_attribute_name_index(s2[i])
}

pub proof fn lemma_attribute_list_det(
    pool: Seq<CpInfo>,
    s1: Seq<Attribute>,
    t1: Seq<u8>,
    s2: Seq<Attribute>,
    t2: Seq<u8>,
)
    requires
        s1.len() == s2.len(),
        wf_attribute_list(pool, s1),
        wf_attribute_list(pool, s2),
        enc_attribute_list(s1) + t1 == enc_attribute_list(s2) + t2,
    ensures
        t1 == t2,
        atts_name_eq(s1, s2),
    decreases s1, 2int,
{
    if s1.len() == 0 {
        assert(enc_attribute_list(s1) + t1 =~= t1);
        assert(enc_attribute_list(s2) + t2 =~= t2);
    } else {
        assert(enc_attribute_list(s1) + t1 =~= enc_attribute(s1[0]) + (enc_attribute_list(
                    s1.drop_first(),
                ) + t1));
        assert(enc_attribute_list(s2) + t2 =~= enc_attribute(s2[0]) + (enc_attribute_list(
                    s2.drop_first(),
                ) + t2));
        lemma_attribute_det(
            pool,
            s1[0],
            enc_attribute_list(s1.drop_first()) + t1,
            s2[0],
            enc_attribute_list(s2.drop_first()) + t2,
        );
        lemma_attribute_list_det(pool, s1.drop_first(), t1, s2.drop_first(), t2);
        assert forall|i: int| 0 <= i < s1.len() implies crate::attribute::spec_attribute_name_index(
            #[trigger] s1[i],
        ) == crate::attribute::spec_attribute_name_index(s2[i]) by {
            if i > 0 {
                assert(s1.drop_first()[i - 1] == s1[i]);
                assert(s2.drop_first()[i - 1] == s2[i]);
            }
        }
    }
}


pub proof fn lemma_field_det(pool: Seq<CpInfo>, f1: FieldsInfo, t1: Seq<u8>, f2: FieldsInfo, t2: Seq<u8>)
    requires
        wf_field(pool, f1),
        wf_field(pool, f2),
        enc_field(f1) + t1 == enc_field(f2) + t2,
    ensures
        t1 == t2,
        f1.name_index == f2.name_index,
{
    assert(enc_field(f1) + t1 =~= be16(f1.access_flags) + (be16(f1.name_index) + (be16(
                    f1.descriptor_index,
                ) + (be16(f1.attributes_count) + (enc_attribute_list(f1.attributes@) + t1)))));
    assert(enc_field(f2) + t2 =~= be16(f2.access_flags) + (be16(f2.name_index) + (be16(
                    f2.descriptor_index,
                ) + (be16(f2.attributes_count) + (enc_attribute_list(f2.attributes@) + t2)))));
    lemma_be16_det(
        f1.access_flags,
        be16(f1.name_index) + (be16(f1.descriptor_index) + (be16(f1.attributes_count) + (
                    enc_attribute_list(f1.attributes@) + t1))),
        f2.access_flags,
        be16(f2.name_index) + (be16(f2.descriptor_index) + (be16(f2.attributes_count) + (
                    enc_attribute_list(f2.attributes@) + t2))),
    );
    lemma_be16_det(
        f1.name_index,
        be16(f1.descriptor_index) + (be16(f1.attributes_count) + (enc_attribute_list(
                    f1.attributes@,
                ) + t1)),
        f2.name_index,
        be16(f2.descriptor_index) + (be16(f2.attributes_count) + (enc_attribute_list(
                    f2.attributes@,
                ) + t2)),
    );
    lemma_be16_det(
        f1.descriptor_index,
        be16(f1.attributes_count) + (enc_attribute_list(f1.attributes@) + t1),
        f2.descriptor_index,
        be16(f2.attributes_count) + (enc_attribute_list(f2.attributes@) + t2),
    );
    lemma_be16_det(
        f1.attributes_count,
        enc_attribute_list(f1.attributes@) + t1,
        f2.attributes_count,
        enc_attribute_list(f2.attributes@) + t2,
    );
    lemma_attribute_list_det(pool, f1.attributes@, t1, f2.attributes@, t2);
}

/// Two field lists agree pointwise on each field's name index.
pub open spec fn fields_name_eq(s1: Seq<FieldsInfo>, s2: Seq<FieldsInfo>) -> bool {
    &&& s1.len() == s2.len()
    &&& forall|i: int| 0 <= i < s1.len() ==> (#[trigger] s1[i]).name_index == s2[i].name_index
}

pub proof fn lemma_field_list_det(
    pool: Seq<CpInfo>,
    s1: Seq<FieldsInfo>,
    t1: Seq<u8>,
    s2: Seq<FieldsInfo>,
    t2: Seq<u8>,
)
    requires
        s1.len() == s2.len(),
        forall|i: int| 0 <= i < s1.len() ==> wf_field(pool, #[trigger] s1[i]),
        forall|i: int| 0 <= i < s2.len() ==> wf_field(pool, #[trigger] s2[i]),
        enc_field_list(s1) + t1 == enc_field_list(s2) + t2,
    ensures
        t1 == t2,
        fields_name_eq(s1, s2),
    decreases s1.len(),
{
    if s1.len() == 0 {
        assert(enc_field_list(s1) + t1 =~= t1);
        assert(enc_field_list(s2) + t2 =~= t2);
    } else {
        assert(enc_field_list(s1) + t1 =~= enc_field(s1[0]) + (enc_field_list(s1.drop_first())
                + t1));
        assert(enc_field_list(s2) + t2 =~= enc_field(s2[0]) + (enc_field_list(s2.drop_first())
                + t2));
        lemma_field_det(
            pool,
            s1[0],
            enc_field_list(s1.drop_first()) + t1,
            s2[0],
            enc_field_list(s2.drop_first()) + t2,
        );
        assert(forall|i: int|
            0 <= i < s1.drop_first().len() ==> #[trigger] s1.drop_first()[i] == s1[i + 1]);
        assert(forall|i: int|
            0 <= i < s2.drop_first().len() ==> #[trigger] s2.drop_first()[i] == s2[i + 1]);
        lemma_field_list_det(pool, s1.drop_first(), t1, s2.drop_first(), t2);
        assert forall|i: int| 0 <= i < s1.len() implies (#[trigger] s1[i]).name_index
            == s2[i].name_index by {
            if i > 0 {
                assert(s1.drop_first()[i - 1] == s1[i]);
                assert(s2.drop_first()[i - 1] == s2[i]);
            }
        }
    }
}

pub proof fn lemma_method_det(pool: Seq<CpInfo>, m1: MethodInfo, t1: Seq<u8>, m2: MethodInfo, t2: Seq<u8>)
    requires
        wf_method(pool, m1),
        wf_method(pool, m2),
        enc_method(m1) + t1 == enc_method(m2) + t2,
    ensures
        t1 == t2,
        m1.name_index == m2.name_index,
        atts_name_eq(m1.attributes@, m2.attributes@),
{
    assert(enc_method(m1) + t1 =~= be16(m1.access_flags) + (be16(m1.name_index) + (be16(
                    m1.descriptor_index,
                ) + (be16(m1.attributes_count) + (enc_attribute_list(m1.attributes@) + t1)))));
    assert(enc_method(m2) + t2 =~= be16(m2.access_flags) + (be16(m2.name_index) + (be16(
                    m2.descriptor_index,
                ) + (be16(m2.attributes_count) + (enc_attribute_list(m2.attributes@) + t2)))));
    lemma_be16_det(
        m1.access_flags,
        be16(m1.name_index) + (be16(m1.descriptor_index) + (be16(m1.attributes_count) + (
                    enc_attribute_list(m1.attributes@) + t1))),
        m2.access_flags,
        be16(m2.name_index) + (be16(m2.descriptor_index) + (be16(m2.attributes_count) + (
                    enc_attribute_list(m2.attributes@) + t2))),
    );
    lemma_be16_det(
        m1.name_index,
        be16(m1.descriptor_index) + (be16(m1.attributes_count) + (enc_attribute_list(
                    m1.attributes@,
                ) + t1)),
        m2.name_index,
        be16(m2.descriptor_index) + (be16(m2.attributes_count) + (enc_attribute_list(
                    m2.attributes@,
                ) + t2)),
    );
    lemma_be16_det(
        m1.descriptor_index,
        be16(m1.attributes_count) + (enc_attribute_list(m1.attributes@) + t1),
        m2.descriptor_index,
        be16(m2.attributes_count) + (enc_attribute_list(m2.attributes@) + t2),
    );
    lemma_be16_det(
        m1.attributes_count,
        enc_attribute_list(m1.attributes@) + t1,
        m2.attributes_count,
        enc_attribute_list(m2.attributes@) + t2,
    );
    lemma_attribute_list_det(pool, m1.attributes@, t1, m2.attributes@, t2);
}

/// Two method lists agree pointwise on each method's name index and on the
/// name indices of its attributes.
pub open spec fn methods_name_eq(s1: Seq<MethodInfo>, s2: Seq<MethodInfo>) -> bool {
    &&& s1.len() == s2.len()
    &&& forall|i: int|
        0 <= i < s1.len() ==> ((#[trigger] s1[i]).name_index == s2[i].name_index && atts_name_eq(
            s1[i].attributes@,
            s2[i].attributes@,
        ))
}

pub proof fn lemma_method_list_det(
    pool: Seq<CpInfo>,
    s1: Seq<MethodInfo>,
    t1: Seq<u8>,
    s2: Seq<MethodInfo>,
    t2: Seq<u8>,
)
    requires
        s1.len() == s2.len(),
        forall|i: int| 0 <= i < s1.len() ==> wf_method(pool, #[trigger] s1[i]),
        forall|i: int| 0 <= i < s2.len() ==> wf_method(pool, #[trigger] s2[i]),
        enc_method_list(s1) + t1 == enc_method_list(s2) + t2,
    ensures
        t1 == t2,
        methods_name_eq(s1, s2),
    decreases s1.len(),
{
    if s1.len() == 0 {
        assert(enc_method_list(s1) + t1 =~= t1);
        assert(enc_method_list(s2) + t2 =~= t2);
    } else {
        assert(enc_method_list(s1) + t1 =~= enc_method(s1[0]) + (enc_method_list(s1.drop_first())
                + t1));
        assert(enc_method_list(s2) + t2 =~= enc_method(s2[0]) + (enc_method_list(s2.drop_first())
                + t2));
        lemma_method_det(
            pool,
            s1[0],
            enc_method_list(s1.drop_first()) + t1,
            s2[0],
            enc_method_list(s2.drop_first()) + t2,
        );
        assert(forall|i: int|
            0 <= i < s1.drop_first().len() ==> #[trigger] s1.drop_first()[i] == s1[i + 1]);
        assert(forall|i: int|
            0 <= i < s2.drop_first().len() ==> #[trigger] s2.drop_first()[i] == s2[i + 1]);
        lemma_method_list_det(pool, s1.drop_first(), t1, s2.drop_first(), t2);
        assert forall|i: int| 0 <= i < s1.len() implies ((#[trigger] s1[i]).name_index
            == s2[i].name_index && atts_name_eq(s1[i].attributes@, s2[i].attributes@)) by {
            if i > 0 {
                assert(s1.drop_first()[i - 1] == s1[i]);
                assert(s2.drop_first()[i - 1] == s2[i]);
            }
        }
    }
}

/// Regrouping a unit's wire form for peeling from the left.
#[verifier::rlimit(100)]
#[verifier::spinoff_prover]
pub proof fn lemma_class_file_reassoc(cf: ClassFile, t: Seq<u8>)
    ensures
        enc_class_file(cf) + t == cf.magic@ + (be16(cf.minor_version) + (be16(cf.major_version) + (
        be16(cf.constant_pool_count) + (enc_cp_list(cf.constant_pool@) + (be16(cf.access_flags) + (
        be16(cf.this_class) + (be16(cf.super_class) + (be16(cf.interfaces_count) + (enc_u16_list(
        cf.interfaces@,
        ) + (be16(cf.fields_count) + (enc_field_list(cf.fields@) + (be16(cf.methods_count) + (
        enc_method_list(cf.methods@) + (be16(cf.attributes_count) + (enc_attribute_list(
        cf.attributes@,
        ) + t))))))))))))))),
{
    assert(enc_class_file(cf) + t =~= cf.magic@ + (be16(cf.minor_version) + (be16(cf.major_version)
                + (be16(cf.constant_pool_count) + (enc_cp_list(cf.constant_pool@) + (be16(cf.access_flags)
                            + (be16(cf.this_class) + (be16(cf.super_class) + (be16(cf.interfaces_count) + (
                                            enc_u16_list(cf.interfaces@) + (be16(cf.fields_count) + (enc_field_list(cf.fields@) + (be16(
                                                            cf.methods_count,
                                                        ) + (enc_method_list(cf.methods@) + (be16(cf.attributes_count) + (enc_attribute_list(
                                                                        cf.attributes@,
                                                                    ) + t))))))))))))))));
}

/// The central uniqueness fact of the wire format: two well-formed units
/// whose encodings begin the same byte stream leave the same remainder.
/// One unit's wire form is therefore never a strict prefix of another's.
#[verifier::rlimit(100)]
#[verifier::spinoff_prover]
pub proof fn lemma_class_file_det(cf1: ClassFile, t1: Seq<u8>, cf2: ClassFile, t2: Seq<u8>)
    requires
        wf_class_file(cf1),
        wf_class_file(cf2),
        enc_class_file(cf1) + t1 == enc_class_file(cf2) + t2,
    ensures
        t1 == t2,
        cf1.minor_version == cf2.minor_version,
        cf1.major_version == cf2.major_version,
        same_text_entries(cf1.constant_pool@, cf2.constant_pool@),
        pool_view_eq(cf1.constant_pool@, cf2.constant_pool@),
        fields_name_eq(cf1.fields@, cf2.fields@),
        methods_name_eq(cf1.methods@, cf2.methods@),
        atts_name_eq(cf1.attributes@, cf2.attributes@),
{
    let p1 = cf1.constant_pool@;
    let p2 = cf2.constant_pool@;
    let a1 = be16(cf1.attributes_count) + (enc_attribute_list(cf1.attributes@) + t1);
    let a2 = be16(cf2.attributes_count) + (enc_attribute_list(cf2.attributes@) + t2);
    let m1 = be16(cf1.methods_count) + (enc_method_list(cf1.methods@) + a1);
    let m2 = be16(cf2.methods_count) + (enc_method_list(cf2.methods@) + a2);
    let f1 = be16(cf1.fields_count) + (enc_field_list(cf1.fields@) + m1);
    let f2 = be16(cf2.fields_count) + (enc_field_list(cf2.fields@) + m2);
    let i1 = be16(cf1.interfaces_count) + (enc_u16_list(cf1.interfaces@) + f1);
    let i2 = be16(cf2.interfaces_count) + (enc_u16_list(cf2.interfaces@) + f2);
    let h1 = be16(cf1.access_flags) + (be16(cf1.this_class) + (be16(cf1.super_class) + i1));
    let h2 = be16(cf2.access_flags) + (be16(cf2.this_class) + (be16(cf2.super_class) + i2));
    lemma_class_file_reassoc(cf1, t1);
    lemma_class_file_reassoc(cf2, t2);
    lemma_cat_split(
        cf1.magic@,
        be16(cf1.minor_version) + (be16(cf1.major_version) + (be16(cf1.constant_pool_count) + (
                    enc_cp_list(p1) + h1))),
        cf2.magic@,
        be16(cf2.minor_version) + (be16(cf2.major_version) + (be16(cf2.constant_pool_count) + (
                    enc_cp_list(p2) + h2))),
    );
    lemma_be16_det(
        cf1.minor_version,
        be16(cf1.major_version) + (be16(cf1.constant_pool_count) + (enc_cp_list(p1) + h1)),
        cf2.minor_version,
        be16(cf2.major_version) + (be16(cf2.constant_pool_count) + (enc_cp_list(p2) + h2)),
    );
    lemma_be16_det(
        cf1.major_version,
        be16(cf1.constant_pool_count) + (enc_cp_list(p1) + h1),
        cf2.major_version,
        be16(cf2.constant_pool_count) + (enc_cp_list(p2) + h2),
    );
    lemma_be16_det(cf1.constant_pool_count, enc_cp_list(p1) + h1, cf2.constant_pool_count, enc_cp_list(p2) + h2);
    lemma_cp_list_det(p1, h1, p2, h2);
    lemma_be16_det(
        cf1.access_flags,
        be16(cf1.this_class) + (be16(cf1.super_class) + i1),
        cf2.access_flags,
        be16(cf2.this_class) + (be16(cf2.super_class) + i2),
    );
    lemma_be16_det(
        cf1.this_class,
        be16(cf1.super_class) + i1,
        cf2.this_class,
        be16(cf2.super_class) + i2,
    );
    lemma_be16_det(cf1.super_class, i1, cf2.super_class, i2);
    lemma_be16_det(
        cf1.interfaces_count,
        enc_u16_list(cf1.interfaces@) + f1,
        cf2.interfaces_count,
        enc_u16_list(cf2.interfaces@) + f2,
    );
    lemma_u16_list_det(cf1.interfaces@, f1, cf2.interfaces@, f2);
    lemma_be16_det(
        cf1.fields_count,
        enc_field_list(cf1.fields@) + m1,
        cf2.fields_count,
        enc_field_list(cf2.fields@) + m2,
    );
    assert forall|i: int| 0 <= i < cf2.fields@.len() implies wf_field(
        p1,
        #[trigger] cf2.fields@[i],
    ) by {
        lemma_wf_attribute_list_same_pool(p1, p2, cf2.fields@[i].attributes@);
    }
    lemma_field_list_det(p1, cf1.fields@, m1, cf2.fields@, m2);
    lemma_be16_det(
        cf1.methods_count,
        enc_method_list(cf1.methods@) + a1,
        cf2.methods_count,
        enc_method_list(cf2.methods@) + a2,
    );
    assert forall|i: int| 0 <= i < cf2.methods@.len() implies wf_method(
        p1,
        #[trigger] cf2.methods@[i],
    ) by {
        lemma_wf_attribute_list_same_pool(p1, p2, cf2.methods@[i].attributes@);
    }
    lemma_method_list_det(p1, cf1.methods@, a1, cf2.methods@, a2);
    lemma_be16_det(
        cf1.attributes_count,
        enc_attribute_list(cf1.attributes@) + t1,
        cf2.attributes_count,
        enc_attribute_list(cf2.attributes@) + t2,
    );
    lemma_wf_attribute_list_same_pool(p1, p2, cf2.attributes@);
    lemma_attribute_list_det(p1, cf1.attributes@, t1, cf2.attributes@, t2);
}

/// Truncation is fail-closed: a prefix of a well-formed unit's encoding
/// that is itself the encoding of a well-formed unit is the whole buffer.
/// Since a successful decode re-encodes to exactly its input, decoding any
/// strict prefix of a valid unit file can only fail.
pub proof fn lemma_truncated_encoding_is_whole(b: Seq<u8>, cf: ClassFile, cf2: ClassFile, i: int)
    requires
        wf_class_file(cf),
        enc_class_file(cf) == b,
        0 <= i <= b.len(),
        wf_class_file(cf2),
        enc_class_file(cf2) == b.take(i),
    ensures
        i == b.len(),
{
    assert(enc_class_file(cf2) + b.skip(i) =~= enc_class_file(cf) + Seq::<u8>::empty());
    lemma_class_file_det(cf2, b.skip(i), cf, Seq::<u8>::empty());
    assert(b.skip(i).len() == b.len() - i);
}

/// Trailing bytes are fail-closed: whatever follows a well-formed unit's
/// encoding in a longer buffer that is itself the encoding of a
/// well-formed unit must be empty. Since a successful decode re-encodes to
/// exactly its input, decoding a valid unit file with extra bytes appended
/// can only fail.
pub proof fn lemma_extended_encoding_adds_nothing(
    b: Seq<u8>,
    s: Seq<u8>,
    cf: ClassFile,
    cf2: ClassFile,
)
    requires
        wf_class_file(cf),
        enc_class_file(cf) == b,
        wf_class_file(cf2),
        enc_class_file(cf2) == b + s,
    ensures
        s.len() == 0,
{
    assert(enc_class_file(cf) + s =~= enc_class_file(cf2) + Seq::<u8>::empty());
    lemma_class_file_det(cf, s, cf2, Seq::<u8>::empty());
}


/// Resolution through two view-equal pools agrees at every index:
/// what a slot holds, and every text it chains to, is the same.
pub proof fn lemma_resolution_view_eq(p1: Seq<CpInfo>, p2: Seq<CpInfo>, idx: u16)
    requires
        pool_view_eq(p1, p2),
    ensures
        crate::checker::utf8_entry_at(p1, idx) == crate::checker::utf8_entry_at(p2, idx),
        crate::checker::class_entry_at(p1, idx) == crate::checker::class_entry_at(p2, idx),
        crate::checker::nat_entry_at(p1, idx) == crate::checker::nat_entry_at(p2, idx),
        cp_text_at(p1, idx) == cp_text_at(p2, idx),
        crate::checker::nat_name_text(p1, idx) == crate::checker::nat_name_text(p2, idx),
        crate::checker::nat_desc_text(p1, idx) == crate::checker::nat_desc_text(p2, idx),
{
    if 1 <= idx && idx <= p1.len() {
        assert(cp_info_view_eq(p1[idx - 1], p2[idx - 1]));
        if p1[idx - 1] is NameAndType {
            let n1 = p1[idx - 1]->NameAndType_0;
            let n2 = p2[idx - 1]->NameAndType_0;
            lemma_resolution_view_eq_text(p1, p2, n1.name_index);
            lemma_resolution_view_eq_text(p1, p2, n1.descriptor_index);
            assert(n1.name_index == n2.name_index && n1.descriptor_index == n2.descriptor_index);
        }
    }
}

/// The text a slot holds is the same through two view-equal pools.
pub proof fn lemma_resolution_view_eq_text(p1: Seq<CpInfo>, p2: Seq<CpInfo>, idx: u16)
    requires
        pool_view_eq(p1, p2),
    ensures
        cp_text_at(p1, idx) == cp_text_at(p2, idx),
{
    if 1 <= idx && idx <= p1.len() {
        assert(cp_info_view_eq(p1[idx - 1], p2[idx - 1]));
    }
}

/// One pool entry passes its rules against `p1` whenever its counterpart
/// passes them against a view-equal `p2`.
pub proof fn lemma_cp_entry_ok_view_eq(p1: Seq<CpInfo>, p2: Seq<CpInfo>, major_version: u16, j: int)
    requires
        pool_view_eq(p1, p2),
        0 <= j < p1.len(),
        crate::checker::cp_entry_ok(p2, major_version, p2[j]),
    ensures
        crate::checker::cp_entry_ok(p1, major_version, p1[j]),
{
    assert(cp_info_view_eq(p1[j], p2[j]));
    match p1[j] {
        CpInfo::Utf8(_) => {},
        CpInfo::Integer(_) => {},
        CpInfo::Float(_) => {},
        CpInfo::Long(_) => {},
        CpInfo::Double(_) => {},
        CpInfo::Class(c) => {
            lemma_resolution_view_eq(p1, p2, c.name_index);
        },
        CpInfo::String(st) => {
            lemma_resolution_view_eq(p1, p2, st.string_index);
        },
        CpInfo::Fieldref(f) => {
            lemma_resolution_view_eq(p1, p2, f.class_index);
            lemma_resolution_view_eq(p1, p2, f.name_and_type_index);
        },
        CpInfo::Methodref(m) => {
            lemma_resolution_view_eq(p1, p2, m.class_index);
            lemma_resolution_view_eq(p1, p2, m.name_and_type_index);
        },
        CpInfo::InterfaceMethodref(m) => {
            lemma_resolution_view_eq(p1, p2, m.class_index);
            lemma_resolution_view_eq(p1, p2, m.name_and_type_index);
        },
        CpInfo::NameAndType(n) => {
            lemma_resolution_view_eq(p1, p2, n.name_index);
            lemma_resolution_view_eq(p1, p2, n.descriptor_index);
        },
        CpInfo::MethodHandle(mh) => {
            let mh2 = p2[j]->MethodHandle_0;
            assert(mh.reference_kind == mh2.reference_kind && mh.reference_index
                == mh2.reference_index);
            if 1 <= mh.reference_index && mh.reference_index <= p1.len() {
                let e1 = p1[mh.reference_index - 1];
                let e2 = p2[mh.reference_index - 1];
                assert(cp_info_view_eq(e1, e2));
                match e1 {
                    CpInfo::Methodref(m) => {
                        lemma_resolution_view_eq(p1, p2, m.name_and_type_index);
                    },
                    CpInfo::InterfaceMethodref(m) => {
                        lemma_resolution_view_eq(p1, p2, m.name_and_type_index);
                    },
                    _ => {},
                }
            }
        },
        CpInfo::MethodType(mt) => {
            lemma_resolution_view_eq(p1, p2, mt.descriptor_index);
        },
        CpInfo::Dynamic(d) => {
            lemma_resolution_view_eq(p1, p2, d.name_and_type_index);
        },
        CpInfo::InvokeDynamic(d) => {
            lemma_resolution_view_eq(p1, p2, d.name_and_type_index);
        },
        CpInfo::Module(m) => {
            lemma_resolution_view_eq(p1, p2, m.name_index);
        },
        CpInfo::Package(p) => {
            lemma_resolution_view_eq(p1, p2, p.name_index);
        },
    }
}

/// A pool passes every rule whenever a view-equal pool does.
pub proof fn lemma_cp_ok_view_eq(p1: Seq<CpInfo>, p2: Seq<CpInfo>, major_version: u16)
    requires
        pool_view_eq(p1, p2),
        crate::checker::cp_ok(p2, major_version),
    ensures
        crate::checker::cp_ok(p1, major_version),
{
    assert forall|j: int| 0 <= j < p1.len() implies crate::checker::cp_entry_ok(
        p1,
        major_version,
        #[trigger] p1[j],
    ) by {
        assert(crate::checker::cp_entry_ok(p2, major_version, p2[j]));
        lemma_cp_entry_ok_view_eq(p1, p2, major_version, j);
    }
}


/// A text slot resolves the same way through two pools that agree on their
/// text entries.
proof fn lemma_utf8_entry_same_text(p1: Seq<CpInfo>, p2: Seq<CpInfo>, idx: u16)
    requires
        same_text_entries(p1, p2),
    ensures
        crate::checker::utf8_entry_at(p1, idx) == crate::checker::utf8_entry_at(p2, idx),
{
    if 1 <= idx && idx <= p1.len() {
        assert(p1[idx - 1] is Utf8 <==> p2[idx - 1] is Utf8);
    }
}

/// The checking pass's name-resolution rules carry over between two
/// decoded units whose pools agree on their text entries and whose member
/// and attribute lists agree on every name index.
pub proof fn lemma_checked_names_transfer(cf1: ClassFile, cf2: ClassFile)
    requires
        same_text_entries(cf1.constant_pool@, cf2.constant_pool@),
        fields_name_eq(cf1.fields@, cf2.fields@),
        methods_name_eq(cf1.methods@, cf2.methods@),
        atts_name_eq(cf1.attributes@, cf2.attributes@),
        crate::checker::attributes_ok(cf2.constant_pool@, cf2.attributes@),
        crate::checker::fields_ok(cf2.constant_pool@, cf2.fields@),
        crate::checker::methods_ok(cf2.constant_pool@, cf2.methods@),
    ensures
        crate::checker::attributes_ok(cf1.constant_pool@, cf1.attributes@),
        crate::checker::fields_ok(cf1.constant_pool@, cf1.fields@),
        crate::checker::methods_ok(cf1.constant_pool@, cf1.methods@),
{
    let p1 = cf1.constant_pool@;
    let p2 = cf2.constant_pool@;
    assert forall|i: int| 0 <= i < cf1.attributes@.len() implies crate::checker::utf8_entry_at(
        p1,
        crate::attribute::spec_attribute_name_index(#[trigger] cf1.attributes@[i]),
    ) by {
        lemma_utf8_entry_same_text(
            p1,
            p2,
            crate::attribute::spec_attribute_name_index(cf1.attributes@[i]),
        );
        assert(crate::checker::utf8_entry_at(
            p2,
            crate::attribute::spec_attribute_name_index(cf2.attributes@[i]),
        ));
    }
    assert forall|i: int| 0 <= i < cf1.fields@.len() implies crate::checker::utf8_entry_at(
        p1,
        (#[trigger] cf1.fields@[i]).name_index,
    ) by {
        lemma_utf8_entry_same_text(p1, p2, cf1.fields@[i].name_index);
        assert(crate::checker::utf8_entry_at(p2, cf2.fields@[i].name_index));
    }
    assert forall|i: int| 0 <= i < cf1.methods@.len() implies (crate::checker::utf8_entry_at(
        p1,
        (#[trigger] cf1.methods@[i]).name_index,
    ) && crate::checker::attributes_ok(p1, cf1.methods@[i].attributes@)) by {
        lemma_utf8_entry_same_text(p1, p2, cf1.methods@[i].name_index);
        assert(crate::checker::utf8_entry_at(p2, cf2.methods@[i].name_index));
        assert(crate::checker::attributes_ok(p2, cf2.methods@[i].attributes@));
        assert(atts_name_eq(cf1.methods@[i].attributes@, cf2.methods@[i].attributes@));
        assert forall|j: int| 0 <= j < cf1.methods@[i].attributes@.len() implies
            crate::checker::utf8_entry_at(
            p1,
            crate::attribute::spec_attribute_name_index(
                #[trigger] cf1.methods@[i].attributes@[j],
            ),
        ) by {
            lemma_utf8_entry_same_text(
                p1,
                p2,
                crate::attribute::spec_attribute_name_index(cf1.methods@[i].attributes@[j]),
            );
            assert(crate::checker::utf8_entry_at(
                p2,
                crate::attribute::spec_attribute_name_index(cf2.methods@[i].attributes@[j]),
            ));
        }
    }
}

} // verus!
