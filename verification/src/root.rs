//! The root of a decoded unit: header, constant pool, membership flags,
//! interface list, field list, method list, and top-level attributes.

use vstd::prelude::*;

use crate::attribute::Attribute;
use crate::constant_pool::CpInfo;

verus! {

/// A fully decoded unit. Every stored count field equals the length of the
/// list beside it; the pool count is one more than the number of entries,
/// because logical slot 0 is reserved.
#[derive(Debug, PartialEq)]
pub struct ClassFile {
    pub magic: [u8; 4],
    pub minor_version: u16,
    pub major_version: u16,
    pub constant_pool_count: u16,
    pub constant_pool: Vec<CpInfo>,
    pub access_flags: u16,
    pub this_class: u16,
    pub super_class: u16,
    pub interfaces_count: u16,
    pub interfaces: Vec<u16>,
    pub fields_count: u16,
    pub fields: Vec<FieldsInfo>,
    pub methods_count: u16,
    pub methods: Vec<MethodInfo>,
    pub attributes_count: u16,
    pub attributes: Vec<Attribute>,
}

/// One field declaration of the unit.
#[derive(Debug, PartialEq)]
pub struct FieldsInfo {
    pub access_flags: u16,
    pub name_index: u16,
    pub descriptor_index: u16,
    pub attributes_count: u16,
    pub attributes: Vec<Attribute>,
}

/// One method declaration of the unit.
#[derive(Debug, PartialEq)]
pub struct MethodInfo {
    pub access_flags: u16,
    pub name_index: u16,
    pub descriptor_index: u16,
    pub attributes_count: u16,
    pub attributes: Vec<Attribute>,
}

} // verus!
