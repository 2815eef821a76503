//! Attributes: named, length-delimited extension records attached to the unit,
//! to a member, or (one level deep) to an executable-code attribute.

use vstd::prelude::*;

verus! {

/// The closed set of attribute shapes this decoder understands; every other
/// name round-trips as the opaque `General` record.
#[derive(Debug, PartialEq)]
pub enum Attribute {
    General(AttributeInfo),
    ConstantValue(ConstantValueAttribute),
    Code(CodeAttributeInfo),
    StackMapTable(StackMapTableAttribute),
    BootstrapMethods(BootstrapMethodsAttribute),
    MethodParameters(MethodParametersAttribute),
    Module(ModuleAttribute),
    NestHost(NestHostAttribute),
    NestMembers(NestMembersAttribute),
    PermittedSubclasses(PermittedSubclassesAttribute),
}

/// The general format: an unrecognized attribute kept as its raw payload,
/// whose declared length is authoritative (`info.len() == attribute_length`).
#[derive(Debug, PartialEq)]
pub struct AttributeInfo {
    pub attribute_name_index: u16,
    pub attribute_length: u32,
    pub info: Vec<u8>,
}

#[derive(Debug, PartialEq)]
pub struct ConstantValueAttribute {
    pub attribute_name_index: u16,
    pub attribute_length: u32,
    pub constantvalue_index: u16,
}

/// The executable-code container: instruction bytes, an exception-handler
/// table, and a nested attribute list.
#[derive(Debug, PartialEq)]
pub struct CodeAttributeInfo {
    pub attribute_name_index: u16,
    pub attribute_length: u32,
    pub max_stack: u16,
    pub max_locals: u16,
    pub code_length: u32,
    pub code: Vec<u8>,
    pub exception_table_length: u16,
    pub exception_table: Vec<ExceptionTable>,
    pub attributes_count: u16,
    pub attributes: Vec<Attribute>,
}

#[derive(Debug, PartialEq)]
pub struct ExceptionTable {
    pub start_pc: u16,
    pub end_pc: u16,
    pub handler_pc: u16,
    pub catch_type: u16,
}

/// The stack-type map used by verification-by-type-checking.
#[derive(Debug, PartialEq)]
pub struct StackMapTableAttribute {
    pub attribute_name_index: u16,
    pub attribute_length: u32,
    pub number_of_entries: u16,
    pub entries: Vec<StackMapFrame>,
}

/// One stack-map entry; the variant is selected by the leading frame-type byte.
#[derive(Debug, PartialEq)]
pub enum StackMapFrame {
    /// frame_type in 0..=63
    SameFrame { frame_type: u8 },
    /// frame_type in 64..=127; the stack holds exactly one item
    SameLocals1StackItemFrame { frame_type: u8, stack: Vec<VerificationTypeInfo> },
    /// frame_type 247; the stack holds exactly one item
    SameLocals1StackItemFrameExtended {
        frame_type: u8,
        offset_delta: u16,
        stack: Vec<VerificationTypeInfo>,
    },
    /// frame_type in 248..=250
    ChopFrame { frame_type: u8, offset_delta: u16 },
    /// frame_type 251
    SameFrameExtended { frame_type: u8, offset_delta: u16 },
    /// frame_type in 252..=254; locals holds frame_type - 251 items
    AppendFrame { frame_type: u8, offset_delta: u16, locals: Vec<VerificationTypeInfo> },
    /// frame_type 255
    FullFrame {
        frame_type: u8,
        offset_delta: u16,
        number_of_locals: u16,
        locals: Vec<VerificationTypeInfo>,
        number_of_stack_items: u16,
        stack: Vec<VerificationTypeInfo>,
    },
}

/// One verification type; the variant is selected by the leading tag byte 0..=8.
#[derive(Debug, PartialEq)]
pub enum VerificationTypeInfo {
    TopVariableInfo { tag: u8 },
    IntegerVariableInfo { tag: u8 },
    FloatVariableInfo { tag: u8 },
    DoubleVariableInfo { tag: u8 },
    LongVariableInfo { tag: u8 },
    NullVariableInfo { tag: u8 },
    UninitializedThisVariableInfo { tag: u8 },
    ObjectVariableInfo { tag: u8, cpool_index: u16 },
    UninitializedVariableInfo { tag: u8, offset: u16 },
}

/// The bootstrap-call table that Dynamic and InvokeDynamic pool entries index into.
#[derive(Debug, PartialEq)]
pub struct BootstrapMethodsAttribute {
    pub attribute_name_index: u16,
    pub attribute_length: u32,
    pub num_bootstrap_methods: u16,
    pub bootstrap_methods: Vec<BootstrapMethod>,
}

#[derive(Debug, PartialEq)]
pub struct BootstrapMethod {
    pub bootstrap_method_ref: u16,
    pub num_bootstrap_arguments: u16,
    pub bootstrap_arguments: Vec<u16>,
}

#[derive(Debug, PartialEq)]
pub struct MethodParametersAttribute {
    pub attribute_name_index: u16,
    pub attribute_length: u32,
    pub parameters_count: u8,
    pub parameters: Vec<Parameter>,
}

#[derive(Debug, PartialEq)]
pub struct Parameter {
    pub name_index: u16,
    pub access_flags: u16,
}

/// Module-linkage metadata: requires, exports, opens, uses and provides lists.
#[derive(Debug, PartialEq)]
pub struct ModuleAttribute {
    pub attribute_name_index: u16,
    pub attribute_length: u32,
    pub module_name_index: u16,
    pub module_flags: u16,
    pub module_version_index: u16,
    pub requires_count: u16,
    pub requires: Vec<Require>,
    pub exports_count: u16,
    pub exports: Vec<Export>,
    pub opens_count: u16,
    pub opens: Vec<Open>,
    pub uses_count: u16,
    pub uses_index: Vec<u16>,
    pub provides_count: u16,
    pub provides: Vec<Provide>,
}

#[derive(Debug, PartialEq)]
pub struct Require {
    pub requires_index: u16,
    pub requires_flags: u16,
    pub requires_version_index: u16,
}

#[derive(Debug, PartialEq)]
pub struct Export {
    pub exports_index: u16,
    pub exports_flags: u16,
    pub exports_to_count: u16,
    pub exports_to_index: Vec<u16>,
}

#[derive(Debug, PartialEq)]
pub struct Open {
    pub opens_index: u16,
    pub opens_flags: u16,
    pub opens_to_count: u16,
    pub opens_to_index: Vec<u16>,
}

#[derive(Debug, PartialEq)]
pub struct Provide {
    pub provides_index: u16,
    pub provides_with_count: u16,
    pub provides_with_index: Vec<u16>,
}

#[derive(Debug, PartialEq)]
pub struct NestHostAttribute {
    pub attribute_name_index: u16,
    pub attribute_length: u32,
    pub host_class_index: u16,
}

#[derive(Debug, PartialEq)]
pub struct NestMembersAttribute {
    pub attribute_name_index: u16,
    pub attribute_length: u32,
    pub number_of_classes: u16,
    pub classes: Vec<u16>,
}

#[derive(Debug, PartialEq)]
pub struct PermittedSubclassesAttribute {
    pub attribute_name_index: u16,
    pub attribute_length: u32,
    pub number_of_classes: u16,
    pub classes: Vec<u16>,
}

impl Attribute {
    /// The attribute-name index of the record, whichever shape it decoded to.
    pub fn attribute_name_index(&self) -> (r: u16)
        ensures
            r == spec_attribute_name_index(*self),
    {
        match self {
            Attribute::General(a) => a.attribute_name_index,
            Attribute::ConstantValue(a) => a.attribute_name_index,
            Attribute::Code(a) => a.attribute_name_index,
            Attribute::StackMapTable(a) => a.attribute_name_index,
            Attribute::BootstrapMethods(a) => a.attribute_name_index,
            Attribute::MethodParameters(a) => a.attribute_name_index,
            Attribute::Module(a) => a.attribute_name_index,
            Attribute::NestHost(a) => a.attribute_name_index,
            Attribute::NestMembers(a) => a.attribute_name_index,
            Attribute::PermittedSubclasses(a) => a.attribute_name_index,
        }
    }
}

/// The declared payload length of the record, whichever shape it decoded to.
pub open spec fn spec_attribute_length(a: Attribute) -> u32 {
    match a {
        Attribute::General(a) => a.attribute_length,
        Attribute::ConstantValue(a) => a.attribute_length,
        Attribute::Code(a) => a.attribute_length,
        Attribute::StackMapTable(a) => a.attribute_length,
        Attribute::BootstrapMethods(a) => a.attribute_length,
        Attribute::MethodParameters(a) => a.attribute_length,
        Attribute::Module(a) => a.attribute_length,
        Attribute::NestHost(a) => a.attribute_length,
        Attribute::NestMembers(a) => a.attribute_length,
        Attribute::PermittedSubclasses(a) => a.attribute_length,
    }
}

/// The attribute-name index of the record, whichever shape it decoded to.
pub open spec fn spec_attribute_name_index(a: Attribute) -> u16 {
    match a {
        Attribute::General(a) => a.attribute_name_index,
        Attribute::ConstantValue(a) => a.attribute_name_index,
        Attribute::Code(a) => a.attribute_name_index,
        Attribute::StackMapTable(a) => a.attribute_name_index,
        Attribute::BootstrapMethods(a) => a.attribute_name_index,
        Attribute::MethodParameters(a) => a.attribute_name_index,
        Attribute::Module(a) => a.attribute_name_index,
        Attribute::NestHost(a) => a.attribute_name_index,
        Attribute::NestMembers(a) => a.attribute_name_index,
        Attribute::PermittedSubclasses(a) => a.attribute_name_index,
    }
}

} // verus!
