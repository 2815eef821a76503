//! The typed-accessor layer over the constant pool: each accessor resolves a
//! 1-based index to the entry variant its name promises, carrying either the
//! resolved entry or a descriptive error, and exposes chained projections so
//! that multi-hop reference chains read as a pipeline and every hop yields a
//! precise error instead of an out-of-bounds or wrong-variant read.

use vstd::prelude::*;
use vstd::string::StringExecFns;
use vstd::utf8::{decode_utf8, valid_utf8};

use crate::constant_pool::{
    ConstantClassInfo, ConstantDoubleInfo, ConstantDynamicInfo, ConstantFieldrefInfo,
    ConstantFloatInfo, ConstantIntegerInfo, ConstantInterfaceMethodrefInfo,
    ConstantInvokeDynamicInfo, ConstantLongInfo, ConstantMethodHandleInfo, ConstantMethodTypeInfo,
    ConstantMethodrefInfo, ConstantModuleInfo, ConstantNameAndTypeInfo, ConstantPackageInfo,
    ConstantStringInfo, ConstantUtf8Info, CpInfo,
};
use crate::text::concat_usize;

verus! {

/// An accessor-phase failure: an index that does not resolve, or one that
/// resolves to a different variant than the use site expects.
#[derive(Debug, Clone, PartialEq)]
pub struct AccessError {
    pub message: String,
}

/// Whether `index` is a valid 1-based slot of the pool.
pub open spec fn cp_has(pool: Seq<CpInfo>, index: u16) -> bool {
    1 <= index && index <= pool.len()
}

/// The entry at 1-based slot `index`.
pub open spec fn cp_at(pool: Seq<CpInfo>, index: u16) -> CpInfo
    recommends
        cp_has(pool, index),
{
    pool[index - 1]
}

fn cp_info_name(cp_info: &CpInfo) -> &'static str {
    match cp_info {
        CpInfo::Utf8(_) => "CONSTANT_Utf8",
        CpInfo::Integer(_) => "CONSTANT_Integer",
        CpInfo::Float(_) => "CONSTANT_Float",
        CpInfo::Long(_) => "CONSTANT_Long",
        CpInfo::Double(_) => "CONSTANT_Double",
        CpInfo::Class(_) => "CONSTANT_Class",
        CpInfo::String(_) => "CONSTANT_String",
        CpInfo::Fieldref(_) => "CONSTANT_Fieldref",
        CpInfo::Methodref(_) => "CONSTANT_Methodref",
        CpInfo::InterfaceMethodref(_) => "CONSTANT_InterfaceMethodref",
        CpInfo::NameAndType(_) => "CONSTANT_NameAndType",
        CpInfo::MethodHandle(_) => "CONSTANT_MethodHandle",
        CpInfo::MethodType(_) => "CONSTANT_MethodType",
        CpInfo::Dynamic(_) => "CONSTANT_Dynamic",
        CpInfo::InvokeDynamic(_) => "CONSTANT_InvokeDynamic",
        CpInfo::Module(_) => "CONSTANT_Module",
        CpInfo::Package(_) => "CONSTANT_Package",
    }
}

fn wrong_variant_error(expected: &str, found: &CpInfo, index: u16) -> (r: AccessError) {
    let mut m = "The index must refer to ".to_owned();
    m.append(expected);
    m.append(" structure, but ");
    m.append(cp_info_name(found));
    m.append(" found! index: ");
    m.append(concat_usize("", index as usize).as_str());
    AccessError { message: m }
}

/// Translates the 1-based logical index into the pool, reporting an error
/// for slot 0 and for indices past the table.
pub fn get_constant_pool_info<'a>(constant_pool: &'a Vec<CpInfo>, index: u16) -> (r: Result<
    &'a CpInfo,
    AccessError,
>)
    ensures
        r is Ok <==> cp_has(constant_pool@, index),
        r is Ok ==> *r->Ok_0 == cp_at(constant_pool@, index),
{
    if 1 <= index && (index as usize) <= constant_pool.len() {
        Ok(&constant_pool[(index - 1) as usize])
    } else {
        Err(
            AccessError {
                message: concat_usize("the index of constant_pool not found! index: ", index as usize),
            },
        )
    }
}

/// Relies on `String::from_utf8`: it succeeds exactly on well-formed text
/// and returns its decoding.
#[verifier::external_body]
fn string_from_utf8(bytes: &Vec<u8>) -> (r: Option<String>)
    ensures
        r is Some <==> valid_utf8(bytes@),
        r is Some ==> r->0@ == decode_utf8(bytes@),
{
    String::from_utf8(bytes.clone()).ok()
}

/// The three entry shapes a method handle's reference index may designate.
pub enum MethodHandleReference<'a> {
    Fieldref(FieldrefCpAccessor<'a>),
    Methodref(MethodrefCpAccessor<'a>),
    InterfaceMethodref(InterfaceMethodrefCpAccessor<'a>),
}

/// The signed 32-bit value of four big-endian bytes.
fn i32_from_be(b: &[u8; 4]) -> (r: i32)
    ensures
        r == crate::encoding::be_i32(b@),
{
    let u: u32 = (b[0] as u32) * 16777216 + (b[1] as u32) * 65536 + (b[2] as u32) * 256 + (
    b[3] as u32);
    if u >= 2147483648 {
        (((u - 2147483648) as i32) - 2147483647) - 1
    } else {
        u as i32
    }
}

/// The signed 64-bit value of a big-endian high and low word pair.
fn i64_from_be(hi: &[u8; 4], lo: &[u8; 4]) -> (r: i64)
    ensures
        r == crate::encoding::be_i64(hi@, lo@),
{
    let h: u64 = (hi[0] as u64) * 16777216 + (hi[1] as u64) * 65536 + (hi[2] as u64) * 256 + (
    hi[3] as u64);
    let l: u64 = (lo[0] as u64) * 16777216 + (lo[1] as u64) * 65536 + (lo[2] as u64) * 256 + (
    lo[3] as u64);
    let u: u64 = h * 4294967296 + l;
    if u >= 9223372036854775808 {
        (((u - 9223372036854775808) as i64) - 9223372036854775807) - 1
    } else {
        u as i64
    }
}

pub struct Utf8CpAccessor<'a> {
    pub constant_pool: &'a Vec<CpInfo>,
    pub info_or_err: Result<&'a ConstantUtf8Info, AccessError>,
}

impl<'a> Utf8CpAccessor<'a> {
    /// Resolves `index`, expecting a text entry.
    pub fn from(constant_pool: &'a Vec<CpInfo>, index: u16) -> (r: Utf8CpAccessor<'a>)
        ensures
            r.constant_pool == constant_pool,
            r.info_or_err is Ok <==> cp_has(constant_pool@, index) && cp_at(constant_pool@, index)
                is Utf8,
            r.info_or_err is Ok ==> *r.info_or_err->Ok_0 == cp_at(constant_pool@, index)->Utf8_0,
    {
        match get_constant_pool_info(constant_pool, index) {
            Ok(CpInfo::Utf8(info)) => Utf8CpAccessor { constant_pool, info_or_err: Ok(info) },
            Ok(other_info) => Utf8CpAccessor {
                constant_pool,
                info_or_err: Err(wrong_variant_error("CONSTANT_Utf8_info", other_info, index)),
            },
            Err(e) => Utf8CpAccessor { constant_pool, info_or_err: Err(e) },
        }
    }

    /// An accessor that only carries an earlier hop's failure onward.
    pub fn error(constant_pool: &'a Vec<CpInfo>, e: &AccessError) -> (r: Utf8CpAccessor<'a>)
        ensures
            r.constant_pool == constant_pool,
            r.info_or_err is Err,
            r.info_or_err->Err_0 == *e,
    {
        Utf8CpAccessor { constant_pool, info_or_err: Err(AccessError { message: e.message.clone() }) }
    }

    /// The entry's byte run decoded as text; an error when an earlier hop
    /// failed or the bytes are not well-formed text.
    pub fn bytes_as_string(&self) -> (r: Result<String, AccessError>)
        ensures
            r is Ok <==> self.info_or_err is Ok && valid_utf8(self.info_or_err->Ok_0.bytes@),
            r is Ok ==> r->Ok_0@ == decode_utf8(self.info_or_err->Ok_0.bytes@),
            self.info_or_err is Err ==> r is Err && r->Err_0 == self.info_or_err->Err_0,
    {
        match &self.info_or_err {
            Ok(info) => match string_from_utf8(&info.bytes) {
                Some(s) => Ok(s),
                None => Err(
                    AccessError { message: "invalid utf8 sequence".to_owned() },
                ),
            },
            Err(e) => Err(AccessError { message: e.message.clone() }),
        }
    }
}

pub struct IntegerCpAccessor<'a> {
    pub constant_pool: &'a Vec<CpInfo>,
    pub info_or_err: Result<&'a ConstantIntegerInfo, AccessError>,
}

impl<'a> IntegerCpAccessor<'a> {
    /// Resolves `index`, expecting a 32-bit integer entry.
    pub fn from(constant_pool: &'a Vec<CpInfo>, index: u16) -> (r: IntegerCpAccessor<'a>)
        ensures
            r.constant_pool == constant_pool,
            r.info_or_err is Ok <==> cp_has(constant_pool@, index) && cp_at(constant_pool@, index)
                is Integer,
            r.info_or_err is Ok ==> *r.info_or_err->Ok_0 == cp_at(constant_pool@, index)->Integer_0,
    {
        match get_constant_pool_info(constant_pool, index) {
            Ok(CpInfo::Integer(info)) => IntegerCpAccessor { constant_pool, info_or_err: Ok(info) },
            Ok(other_info) => IntegerCpAccessor {
                constant_pool,
                info_or_err: Err(wrong_variant_error("CONSTANT_Integer_info", other_info, index)),
            },
            Err(e) => IntegerCpAccessor { constant_pool, info_or_err: Err(e) },
        }
    }

    /// An accessor that only carries an earlier hop's failure onward.
    pub fn error(constant_pool: &'a Vec<CpInfo>, e: &AccessError) -> (r: IntegerCpAccessor<'a>)
        ensures
            r.constant_pool == constant_pool,
            r.info_or_err is Err,
            r.info_or_err->Err_0 == *e,
    {
        IntegerCpAccessor { constant_pool, info_or_err: Err(AccessError { message: e.message.clone() }) }
    }

    /// The entry's four bytes as a signed 32-bit big-endian integer.
    pub fn bytes_as_integer(&self) -> (r: Result<i32, AccessError>)
        ensures
            r is Ok <==> self.info_or_err is Ok,
            self.info_or_err is Err ==> r is Err && r->Err_0 == self.info_or_err->Err_0,
            r is Ok ==> r->Ok_0 == crate::encoding::be_i32(self.info_or_err->Ok_0.bytes@),
    {
        match &self.info_or_err {
            Ok(info) => Ok(i32_from_be(&info.bytes)),
            Err(e) => Err(AccessError { message: e.message.clone() }),
        }
    }
}

pub struct FloatCpAccessor<'a> {
    pub constant_pool: &'a Vec<CpInfo>,
    pub info_or_err: Result<&'a ConstantFloatInfo, AccessError>,
}

impl<'a> FloatCpAccessor<'a> {
    /// Resolves `index`, expecting a 32-bit float entry.
    pub fn from(constant_pool: &'a Vec<CpInfo>, index: u16) -> (r: FloatCpAccessor<'a>)
        ensures
            r.constant_pool == constant_pool,
            r.info_or_err is Ok <==> cp_has(constant_pool@, index) && cp_at(constant_pool@, index)
                is Float,
            r.info_or_err is Ok ==> *r.info_or_err->Ok_0 == cp_at(constant_pool@, index)->Float_0,
    {
        match get_constant_pool_info(constant_pool, index) {
            Ok(CpInfo::Float(info)) => FloatCpAccessor { constant_pool, info_or_err: Ok(info) },
            Ok(other_info) => FloatCpAccessor {
                constant_pool,
                info_or_err: Err(wrong_variant_error("CONSTANT_Float_info", other_info, index)),
            },
            Err(e) => FloatCpAccessor { constant_pool, info_or_err: Err(e) },
        }
    }

    /// An accessor that only carries an earlier hop's failure onward.
    pub fn error(constant_pool: &'a Vec<CpInfo>, e: &AccessError) -> (r: FloatCpAccessor<'a>)
        ensures
            r.constant_pool == constant_pool,
            r.info_or_err is Err,
            r.info_or_err->Err_0 == *e,
    {
        FloatCpAccessor { constant_pool, info_or_err: Err(AccessError { message: e.message.clone() }) }
    }
}

pub struct LongCpAccessor<'a> {
    pub constant_pool: &'a Vec<CpInfo>,
    pub info_or_err: Result<&'a ConstantLongInfo, AccessError>,
}

impl<'a> LongCpAccessor<'a> {
    /// Resolves `index`, expecting a 64-bit long entry.
    pub fn from(constant_pool: &'a Vec<CpInfo>, index: u16) -> (r: LongCpAccessor<'a>)
        ensures
            r.constant_pool == constant_pool,
            r.info_or_err is Ok <==> cp_has(constant_pool@, index) && cp_at(constant_pool@, index)
                is Long,
            r.info_or_err is Ok ==> *r.info_or_err->Ok_0 == cp_at(constant_pool@, index)->Long_0,
    {
        match get_constant_pool_info(constant_pool, index) {
            Ok(CpInfo::Long(info)) => LongCpAccessor { constant_pool, info_or_err: Ok(info) },
            Ok(other_info) => LongCpAccessor {
                constant_pool,
                info_or_err: Err(wrong_variant_error("CONSTANT_Long_info", other_info, index)),
            },
            Err(e) => LongCpAccessor { constant_pool, info_or_err: Err(e) },
        }
    }

    /// An accessor that only carries an earlier hop's failure onward.
    pub fn error(constant_pool: &'a Vec<CpInfo>, e: &AccessError) -> (r: LongCpAccessor<'a>)
        ensures
            r.constant_pool == constant_pool,
            r.info_or_err is Err,
            r.info_or_err->Err_0 == *e,
    {
        LongCpAccessor { constant_pool, info_or_err: Err(AccessError { message: e.message.clone() }) }
    }

    /// The entry's high and low word pair as a signed 64-bit big-endian integer.
    pub fn bytes_as_long(&self) -> (r: Result<i64, AccessError>)
        ensures
            r is Ok <==> self.info_or_err is Ok,
            self.info_or_err is Err ==> r is Err && r->Err_0 == self.info_or_err->Err_0,
            r is Ok ==> r->Ok_0 == crate::encoding::be_i64(
                self.info_or_err->Ok_0.high_bytes@,
                self.info_or_err->Ok_0.low_bytes@,
            ),
    {
        match &self.info_or_err {
            Ok(info) => Ok(i64_from_be(&info.high_bytes, &info.low_bytes)),
            Err(e) => Err(AccessError { message: e.message.clone() }),
        }
    }
}

pub struct DoubleCpAccessor<'a> {
    pub constant_pool: &'a Vec<CpInfo>,
    pub info_or_err: Result<&'a ConstantDoubleInfo, AccessError>,
}

impl<'a> DoubleCpAccessor<'a> {
    /// Resolves `index`, expecting a 64-bit double entry.
    pub fn from(constant_pool: &'a Vec<CpInfo>, index: u16) -> (r: DoubleCpAccessor<'a>)
        ensures
            r.constant_pool == constant_pool,
            r.info_or_err is Ok <==> cp_has(constant_pool@, index) && cp_at(constant_pool@, index)
                is Double,
            r.info_or_err is Ok ==> *r.info_or_err->Ok_0 == cp_at(constant_pool@, index)->Double_0,
    {
        match get_constant_pool_info(constant_pool, index) {
            Ok(CpInfo::Double(info)) => DoubleCpAccessor { constant_pool, info_or_err: Ok(info) },
            Ok(other_info) => DoubleCpAccessor {
                constant_pool,
                info_or_err: Err(wrong_variant_error("CONSTANT_Double_info", other_info, index)),
            },
            Err(e) => DoubleCpAccessor { constant_pool, info_or_err: Err(e) },
        }
    }

    /// An accessor that only carries an earlier hop's failure onward.
    pub fn error(constant_pool: &'a Vec<CpInfo>, e: &AccessError) -> (r: DoubleCpAccessor<'a>)
        ensures
            r.constant_pool == constant_pool,
            r.info_or_err is Err,
            r.info_or_err->Err_0 == *e,
    {
        DoubleCpAccessor { constant_pool, info_or_err: Err(AccessError { message: e.message.clone() }) }
    }
}

pub struct ClassCpAccessor<'a> {
    pub constant_pool: &'a Vec<CpInfo>,
    pub info_or_err: Result<&'a ConstantClassInfo, AccessError>,
}

impl<'a> ClassCpAccessor<'a> {
    /// Resolves `index`, expecting a Class entry.
    pub fn from(constant_pool: &'a Vec<CpInfo>, index: u16) -> (r: ClassCpAccessor<'a>)
        ensures
            r.constant_pool == constant_pool,
            r.info_or_err is Ok <==> cp_has(constant_pool@, index) && cp_at(constant_pool@, index)
                is Class,
            r.info_or_err is Ok ==> *r.info_or_err->Ok_0 == cp_at(constant_pool@, index)->Class_0,
    {
        match get_constant_pool_info(constant_pool, index) {
            Ok(CpInfo::Class(info)) => ClassCpAccessor { constant_pool, info_or_err: Ok(info) },
            Ok(other_info) => ClassCpAccessor {
                constant_pool,
                info_or_err: Err(wrong_variant_error("CONSTANT_Class_info", other_info, index)),
            },
            Err(e) => ClassCpAccessor { constant_pool, info_or_err: Err(e) },
        }
    }

    /// An accessor that only carries an earlier hop's failure onward.
    pub fn error(constant_pool: &'a Vec<CpInfo>, e: &AccessError) -> (r: ClassCpAccessor<'a>)
        ensures
            r.constant_pool == constant_pool,
            r.info_or_err is Err,
            r.info_or_err->Err_0 == *e,
    {
        ClassCpAccessor { constant_pool, info_or_err: Err(AccessError { message: e.message.clone() }) }
    }

    /// The class name this entry points at, as a text-entry accessor.
    pub fn name(&self) -> (r: Utf8CpAccessor<'a>)
        ensures
            r.constant_pool == self.constant_pool,
            self.info_or_err is Err ==> r.info_or_err is Err && r.info_or_err->Err_0
                == self.info_or_err->Err_0,
            self.info_or_err is Ok ==> {
                &&& r.info_or_err is Ok <==> cp_has(self.constant_pool@, self.info_or_err->Ok_0.name_index)
                    && cp_at(self.constant_pool@, self.info_or_err->Ok_0.name_index) is Utf8
                &&& r.info_or_err is Ok ==> *r.info_or_err->Ok_0 == cp_at(
                    self.constant_pool@,
                    self.info_or_err->Ok_0.name_index,
                )->Utf8_0
            },
    {
        match &self.info_or_err {
            Ok(info) => Utf8CpAccessor::from(self.constant_pool, info.name_index),
            Err(e) => Utf8CpAccessor::error(self.constant_pool, e),
        }
    }
}

pub struct StringCpAccessor<'a> {
    pub constant_pool: &'a Vec<CpInfo>,
    pub info_or_err: Result<&'a ConstantStringInfo, AccessError>,
}

impl<'a> StringCpAccessor<'a> {
    /// Resolves `index`, expecting a String entry.
    pub fn from(constant_pool: &'a Vec<CpInfo>, index: u16) -> (r: StringCpAccessor<'a>)
        ensures
            r.constant_pool == constant_pool,
            r.info_or_err is Ok <==> cp_has(constant_pool@, index) && cp_at(constant_pool@, index)
                is String,
            r.info_or_err is Ok ==> *r.info_or_err->Ok_0 == cp_at(constant_pool@, index)->String_0,
    {
        match get_constant_pool_info(constant_pool, index) {
            Ok(CpInfo::String(info)) => StringCpAccessor { constant_pool, info_or_err: Ok(info) },
            Ok(other_info) => StringCpAccessor {
                constant_pool,
                info_or_err: Err(wrong_variant_error("CONSTANT_String_info", other_info, index)),
            },
            Err(e) => StringCpAccessor { constant_pool, info_or_err: Err(e) },
        }
    }

    /// An accessor that only carries an earlier hop's failure onward.
    pub fn error(constant_pool: &'a Vec<CpInfo>, e: &AccessError) -> (r: StringCpAccessor<'a>)
        ensures
            r.constant_pool == constant_pool,
            r.info_or_err is Err,
            r.info_or_err->Err_0 == *e,
    {
        StringCpAccessor { constant_pool, info_or_err: Err(AccessError { message: e.message.clone() }) }
    }

    /// The text this entry points at, as a text-entry accessor.
    pub fn name(&self) -> (r: Utf8CpAccessor<'a>)
        ensures
            r.constant_pool == self.constant_pool,
            self.info_or_err is Err ==> r.info_or_err is Err && r.info_or_err->Err_0
                == self.info_or_err->Err_0,
            self.info_or_err is Ok ==> {
                &&& r.info_or_err is Ok <==> cp_has(self.constant_pool@, self.info_or_err->Ok_0.string_index)
                    && cp_at(self.constant_pool@, self.info_or_err->Ok_0.string_index) is Utf8
                &&& r.info_or_err is Ok ==> *r.info_or_err->Ok_0 == cp_at(
                    self.constant_pool@,
                    self.info_or_err->Ok_0.string_index,
                )->Utf8_0
            },
    {
        match &self.info_or_err {
            Ok(info) => Utf8CpAccessor::from(self.constant_pool, info.string_index),
            Err(e) => Utf8CpAccessor::error(self.constant_pool, e),
        }
    }
}

pub struct FieldrefCpAccessor<'a> {
    pub constant_pool: &'a Vec<CpInfo>,
    pub info_or_err: Result<&'a ConstantFieldrefInfo, AccessError>,
}

impl<'a> FieldrefCpAccessor<'a> {
    /// Resolves `index`, expecting a Fieldref entry.
    pub fn from(constant_pool: &'a Vec<CpInfo>, index: u16) -> (r: FieldrefCpAccessor<'a>)
        ensures
            r.constant_pool == constant_pool,
            r.info_or_err is Ok <==> cp_has(constant_pool@, index) && cp_at(constant_pool@, index)
                is Fieldref,
            r.info_or_err is Ok ==> *r.info_or_err->Ok_0 == cp_at(constant_pool@, index)->Fieldref_0,
    {
        match get_constant_pool_info(constant_pool, index) {
            Ok(CpInfo::Fieldref(info)) => FieldrefCpAccessor { constant_pool, info_or_err: Ok(info) },
            Ok(other_info) => FieldrefCpAccessor {
                constant_pool,
                info_or_err: Err(wrong_variant_error("CONSTANT_Fieldref_info", other_info, index)),
            },
            Err(e) => FieldrefCpAccessor { constant_pool, info_or_err: Err(e) },
        }
    }

    /// An accessor that only carries an earlier hop's failure onward.
    pub fn error(constant_pool: &'a Vec<CpInfo>, e: &AccessError) -> (r: FieldrefCpAccessor<'a>)
        ensures
            r.constant_pool == constant_pool,
            r.info_or_err is Err,
            r.info_or_err->Err_0 == *e,
    {
        FieldrefCpAccessor { constant_pool, info_or_err: Err(AccessError { message: e.message.clone() }) }
    }

    /// The class the field belongs to.
    pub fn class(&self) -> (r: ClassCpAccessor<'a>)
        ensures
            r.constant_pool == self.constant_pool,
            self.info_or_err is Err ==> r.info_or_err is Err && r.info_or_err->Err_0
                == self.info_or_err->Err_0,
            self.info_or_err is Ok ==> {
                &&& r.info_or_err is Ok <==> cp_has(self.constant_pool@, self.info_or_err->Ok_0.class_index)
                    && cp_at(self.constant_pool@, self.info_or_err->Ok_0.class_index) is Class
                &&& r.info_or_err is Ok ==> *r.info_or_err->Ok_0 == cp_at(
                    self.constant_pool@,
                    self.info_or_err->Ok_0.class_index,
                )->Class_0
            },
    {
        match &self.info_or_err {
            Ok(info) => ClassCpAccessor::from(self.constant_pool, info.class_index),
            Err(e) => ClassCpAccessor::error(self.constant_pool, e),
        }
    }

    /// The field name and descriptor pair.
    pub fn name_and_type(&self) -> (r: NameAndTypeCpAccessor<'a>)
        ensures
            r.constant_pool == self.constant_pool,
            self.info_or_err is Err ==> r.info_or_err is Err && r.info_or_err->Err_0
                == self.info_or_err->Err_0,
            self.info_or_err is Ok ==> {
                &&& r.info_or_err is Ok <==> cp_has(self.constant_pool@, self.info_or_err->Ok_0.name_and_type_index)
                    && cp_at(self.constant_pool@, self.info_or_err->Ok_0.name_and_type_index) is NameAndType
                &&& r.info_or_err is Ok ==> *r.info_or_err->Ok_0 == cp_at(
                    self.constant_pool@,
                    self.info_or_err->Ok_0.name_and_type_index,
                )->NameAndType_0
            },
    {
        match &self.info_or_err {
            Ok(info) => NameAndTypeCpAccessor::from(self.constant_pool, info.name_and_type_index),
            Err(e) => NameAndTypeCpAccessor::error(self.constant_pool, e),
        }
    }
}

pub struct MethodrefCpAccessor<'a> {
    pub constant_pool: &'a Vec<CpInfo>,
    pub info_or_err: Result<&'a ConstantMethodrefInfo, AccessError>,
}

impl<'a> MethodrefCpAccessor<'a> {
    /// Resolves `index`, expecting a Methodref entry.
    pub fn from(constant_pool: &'a Vec<CpInfo>, index: u16) -> (r: MethodrefCpAccessor<'a>)
        ensures
            r.constant_pool == constant_pool,
            r.info_or_err is Ok <==> cp_has(constant_pool@, index) && cp_at(constant_pool@, index)
                is Methodref,
            r.info_or_err is Ok ==> *r.info_or_err->Ok_0 == cp_at(constant_pool@, index)->Methodref_0,
    {
        match get_constant_pool_info(constant_pool, index) {
            Ok(CpInfo::Methodref(info)) => MethodrefCpAccessor { constant_pool, info_or_err: Ok(info) },
            Ok(other_info) => MethodrefCpAccessor {
                constant_pool,
                info_or_err: Err(wrong_variant_error("CONSTANT_Methodref_info", other_info, index)),
            },
            Err(e) => MethodrefCpAccessor { constant_pool, info_or_err: Err(e) },
        }
    }

    /// An accessor that only carries an earlier hop's failure onward.
    pub fn error(constant_pool: &'a Vec<CpInfo>, e: &AccessError) -> (r: MethodrefCpAccessor<'a>)
        ensures
            r.constant_pool == constant_pool,
            r.info_or_err is Err,
            r.info_or_err->Err_0 == *e,
    {
        MethodrefCpAccessor { constant_pool, info_or_err: Err(AccessError { message: e.message.clone() }) }
    }

    /// The class the method belongs to.
    pub fn class(&self) -> (r: ClassCpAccessor<'a>)
        ensures
            r.constant_pool == self.constant_pool,
            self.info_or_err is Err ==> r.info_or_err is Err && r.info_or_err->Err_0
                == self.info_or_err->Err_0,
            self.info_or_err is Ok ==> {
                &&& r.info_or_err is Ok <==> cp_has(self.constant_pool@, self.info_or_err->Ok_0.class_index)
                    && cp_at(self.constant_pool@, self.info_or_err->Ok_0.class_index) is Class
                &&& r.info_or_err is Ok ==> *r.info_or_err->Ok_0 == cp_at(
                    self.constant_pool@,
                    self.info_or_err->Ok_0.class_index,
                )->Class_0
            },
    {
        match &self.info_or_err {
            Ok(info) => ClassCpAccessor::from(self.constant_pool, info.class_index),
            Err(e) => ClassCpAccessor::error(self.constant_pool, e),
        }
    }

    /// The method name and descriptor pair.
    pub fn name_and_type(&self) -> (r: NameAndTypeCpAccessor<'a>)
        ensures
            r.constant_pool == self.constant_pool,
            self.info_or_err is Err ==> r.info_or_err is Err && r.info_or_err->Err_0
                == self.info_or_err->Err_0,
            self.info_or_err is Ok ==> {
                &&& r.info_or_err is Ok <==> cp_has(self.constant_pool@, self.info_or_err->Ok_0.name_and_type_index)
                    && cp_at(self.constant_pool@, self.info_or_err->Ok_0.name_and_type_index) is NameAndType
                &&& r.info_or_err is Ok ==> *r.info_or_err->Ok_0 == cp_at(
                    self.constant_pool@,
                    self.info_or_err->Ok_0.name_and_type_index,
                )->NameAndType_0
            },
    {
        match &self.info_or_err {
            Ok(info) => NameAndTypeCpAccessor::from(self.constant_pool, info.name_and_type_index),
            Err(e) => NameAndTypeCpAccessor::error(self.constant_pool, e),
        }
    }
}

pub struct InterfaceMethodrefCpAccessor<'a> {
    pub constant_pool: &'a Vec<CpInfo>,
    pub info_or_err: Result<&'a ConstantInterfaceMethodrefInfo, AccessError>,
}

impl<'a> InterfaceMethodrefCpAccessor<'a> {
    /// Resolves `index`, expecting a InterfaceMethodref entry.
    pub fn from(constant_pool: &'a Vec<CpInfo>, index: u16) -> (r: InterfaceMethodrefCpAccessor<'a>)
        ensures
            r.constant_pool == constant_pool,
            r.info_or_err is Ok <==> cp_has(constant_pool@, index) && cp_at(constant_pool@, index)
                is InterfaceMethodref,
            r.info_or_err is Ok ==> *r.info_or_err->Ok_0 == cp_at(constant_pool@, index)->InterfaceMethodref_0,
    {
        match get_constant_pool_info(constant_pool, index) {
            Ok(CpInfo::InterfaceMethodref(info)) => InterfaceMethodrefCpAccessor { constant_pool, info_or_err: Ok(info) },
            Ok(other_info) => InterfaceMethodrefCpAccessor {
                constant_pool,
                info_or_err: Err(wrong_variant_error("CONSTANT_InterfaceMethodref_info", other_info, index)),
            },
            Err(e) => InterfaceMethodrefCpAccessor { constant_pool, info_or_err: Err(e) },
        }
    }

    /// An accessor that only carries an earlier hop's failure onward.
    pub fn error(constant_pool: &'a Vec<CpInfo>, e: &AccessError) -> (r: InterfaceMethodrefCpAccessor<'a>)
        ensures
            r.constant_pool == constant_pool,
            r.info_or_err is Err,
            r.info_or_err->Err_0 == *e,
    {
        InterfaceMethodrefCpAccessor { constant_pool, info_or_err: Err(AccessError { message: e.message.clone() }) }
    }

    /// The interface the method belongs to.
    pub fn class(&self) -> (r: ClassCpAccessor<'a>)
        ensures
            r.constant_pool == self.constant_pool,
            self.info_or_err is Err ==> r.info_or_err is Err && r.info_or_err->Err_0
                == self.info_or_err->Err_0,
            self.info_or_err is Ok ==> {
                &&& r.info_or_err is Ok <==> cp_has(self.constant_pool@, self.info_or_err->Ok_0.class_index)
                    && cp_at(self.constant_pool@, self.info_or_err->Ok_0.class_index) is Class
                &&& r.info_or_err is Ok ==> *r.info_or_err->Ok_0 == cp_at(
                    self.constant_pool@,
                    self.info_or_err->Ok_0.class_index,
                )->Class_0
            },
    {
        match &self.info_or_err {
            Ok(info) => ClassCpAccessor::from(self.constant_pool, info.class_index),
            Err(e) => ClassCpAccessor::error(self.constant_pool, e),
        }
    }

    /// The method name and descriptor pair.
    pub fn name_and_type(&self) -> (r: NameAndTypeCpAccessor<'a>)
        ensures
            r.constant_pool == self.constant_pool,
            self.info_or_err is Err ==> r.info_or_err is Err && r.info_or_err->Err_0
                == self.info_or_err->Err_0,
            self.info_or_err is Ok ==> {
                &&& r.info_or_err is Ok <==> cp_has(self.constant_pool@, self.info_or_err->Ok_0.name_and_type_index)
                    && cp_at(self.constant_pool@, self.info_or_err->Ok_0.name_and_type_index) is NameAndType
                &&& r.info_or_err is Ok ==> *r.info_or_err->Ok_0 == cp_at(
                    self.constant_pool@,
                    self.info_or_err->Ok_0.name_and_type_index,
                )->NameAndType_0
            },
    {
        match &self.info_or_err {
            Ok(info) => NameAndTypeCpAccessor::from(self.constant_pool, info.name_and_type_index),
            Err(e) => NameAndTypeCpAccessor::error(self.constant_pool, e),
        }
    }
}

pub struct NameAndTypeCpAccessor<'a> {
    pub constant_pool: &'a Vec<CpInfo>,
    pub info_or_err: Result<&'a ConstantNameAndTypeInfo, AccessError>,
}

impl<'a> NameAndTypeCpAccessor<'a> {
    /// Resolves `index`, expecting a NameAndType entry.
    pub fn from(constant_pool: &'a Vec<CpInfo>, index: u16) -> (r: NameAndTypeCpAccessor<'a>)
        ensures
            r.constant_pool == constant_pool,
            r.info_or_err is Ok <==> cp_has(constant_pool@, index) && cp_at(constant_pool@, index)
                is NameAndType,
            r.info_or_err is Ok ==> *r.info_or_err->Ok_0 == cp_at(constant_pool@, index)->NameAndType_0,
    {
        match get_constant_pool_info(constant_pool, index) {
            Ok(CpInfo::NameAndType(info)) => NameAndTypeCpAccessor { constant_pool, info_or_err: Ok(info) },
            Ok(other_info) => NameAndTypeCpAccessor {
                constant_pool,
                info_or_err: Err(wrong_variant_error("CONSTANT_NameAndType_info", other_info, index)),
            },
            Err(e) => NameAndTypeCpAccessor { constant_pool, info_or_err: Err(e) },
        }
    }

    /// An accessor that only carries an earlier hop's failure onward.
    pub fn error(constant_pool: &'a Vec<CpInfo>, e: &AccessError) -> (r: NameAndTypeCpAccessor<'a>)
        ensures
            r.constant_pool == constant_pool,
            r.info_or_err is Err,
            r.info_or_err->Err_0 == *e,
    {
        NameAndTypeCpAccessor { constant_pool, info_or_err: Err(AccessError { message: e.message.clone() }) }
    }

    /// The member name this entry points at.
    pub fn name(&self) -> (r: Utf8CpAccessor<'a>)
        ensures
            r.constant_pool == self.constant_pool,
            self.info_or_err is Err ==> r.info_or_err is Err && r.info_or_err->Err_0
                == self.info_or_err->Err_0,
            self.info_or_err is Ok ==> {
                &&& r.info_or_err is Ok <==> cp_has(self.constant_pool@, self.info_or_err->Ok_0.name_index)
                    && cp_at(self.constant_pool@, self.info_or_err->Ok_0.name_index) is Utf8
                &&& r.info_or_err is Ok ==> *r.info_or_err->Ok_0 == cp_at(
                    self.constant_pool@,
                    self.info_or_err->Ok_0.name_index,
                )->Utf8_0
            },
    {
        match &self.info_or_err {
            Ok(info) => Utf8CpAccessor::from(self.constant_pool, info.name_index),
            Err(e) => Utf8CpAccessor::error(self.constant_pool, e),
        }
    }

    /// The descriptor text this entry points at.
    pub fn descriptor(&self) -> (r: Utf8CpAccessor<'a>)
        ensures
            r.constant_pool == self.constant_pool,
            self.info_or_err is Err ==> r.info_or_err is Err && r.info_or_err->Err_0
                == self.info_or_err->Err_0,
            self.info_or_err is Ok ==> {
                &&& r.info_or_err is Ok <==> cp_has(self.constant_pool@, self.info_or_err->Ok_0.descriptor_index)
                    && cp_at(self.constant_pool@, self.info_or_err->Ok_0.descriptor_index) is Utf8
                &&& r.info_or_err is Ok ==> *r.info_or_err->Ok_0 == cp_at(
                    self.constant_pool@,
                    self.info_or_err->Ok_0.descriptor_index,
                )->Utf8_0
            },
    {
        match &self.info_or_err {
            Ok(info) => Utf8CpAccessor::from(self.constant_pool, info.descriptor_index),
            Err(e) => Utf8CpAccessor::error(self.constant_pool, e),
        }
    }
}

pub struct MethodHandleCpAccessor<'a> {
    pub constant_pool: &'a Vec<CpInfo>,
    pub info_or_err: Result<&'a ConstantMethodHandleInfo, AccessError>,
}

impl<'a> MethodHandleCpAccessor<'a> {
    /// Resolves `index`, expecting a MethodHandle entry.
    pub fn from(constant_pool: &'a Vec<CpInfo>, index: u16) -> (r: MethodHandleCpAccessor<'a>)
        ensures
            r.constant_pool == constant_pool,
            r.info_or_err is Ok <==> cp_has(constant_pool@, index) && cp_at(constant_pool@, index)
                is MethodHandle,
            r.info_or_err is Ok ==> *r.info_or_err->Ok_0 == cp_at(constant_pool@, index)->MethodHandle_0,
    {
        match get_constant_pool_info(constant_pool, index) {
            Ok(CpInfo::MethodHandle(info)) => MethodHandleCpAccessor { constant_pool, info_or_err: Ok(info) },
            Ok(other_info) => MethodHandleCpAccessor {
                constant_pool,
                info_or_err: Err(wrong_variant_error("CONSTANT_MethodHandle_info", other_info, index)),
            },
            Err(e) => MethodHandleCpAccessor { constant_pool, info_or_err: Err(e) },
        }
    }

    /// An accessor that only carries an earlier hop's failure onward.
    pub fn error(constant_pool: &'a Vec<CpInfo>, e: &AccessError) -> (r: MethodHandleCpAccessor<'a>)
        ensures
            r.constant_pool == constant_pool,
            r.info_or_err is Err,
            r.info_or_err->Err_0 == *e,
    {
        MethodHandleCpAccessor { constant_pool, info_or_err: Err(AccessError { message: e.message.clone() }) }
    }

    /// The stored reference kind, in 1..=9 for a checked entry.
    pub fn reference_kind(&self) -> (r: Result<u8, AccessError>)
        ensures
            r is Ok <==> self.info_or_err is Ok,
            self.info_or_err is Err ==> r is Err && r->Err_0 == self.info_or_err->Err_0,
            r is Ok ==> r->Ok_0 == self.info_or_err->Ok_0.reference_kind,
    {
        match &self.info_or_err {
            Ok(info) => Ok(info.reference_kind),
            Err(e) => Err(AccessError { message: e.message.clone() }),
        }
    }

    /// Follows the reference index to the Fieldref, Methodref or
    /// InterfaceMethodref entry it must designate.
    pub fn reference(&self) -> (r: Result<MethodHandleReference<'a>, AccessError>)
        ensures
            r is Ok <==> self.info_or_err is Ok && cp_has(
                self.constant_pool@,
                self.info_or_err->Ok_0.reference_index,
            ) && (cp_at(self.constant_pool@, self.info_or_err->Ok_0.reference_index) is Fieldref
                || cp_at(self.constant_pool@, self.info_or_err->Ok_0.reference_index) is Methodref
                || cp_at(
                self.constant_pool@,
                self.info_or_err->Ok_0.reference_index,
            ) is InterfaceMethodref),
            r is Ok ==> {
                let entry = cp_at(self.constant_pool@, self.info_or_err->Ok_0.reference_index);
                match r->Ok_0 {
                    MethodHandleReference::Fieldref(a) => a.constant_pool == self.constant_pool
                        && a.info_or_err is Ok && entry is Fieldref && *a.info_or_err->Ok_0
                        == entry->Fieldref_0,
                    MethodHandleReference::Methodref(a) => a.constant_pool == self.constant_pool
                        && a.info_or_err is Ok && entry is Methodref && *a.info_or_err->Ok_0
                        == entry->Methodref_0,
                    MethodHandleReference::InterfaceMethodref(a) => a.constant_pool
                        == self.constant_pool && a.info_or_err is Ok && entry is InterfaceMethodref
                        && *a.info_or_err->Ok_0 == entry->InterfaceMethodref_0,
                }
            },
    {
        match &self.info_or_err {
            Ok(method_handle_info) => match get_constant_pool_info(
                self.constant_pool,
                method_handle_info.reference_index,
            ) {
                Ok(CpInfo::Fieldref(info)) => Ok(
                    MethodHandleReference::Fieldref(
                        FieldrefCpAccessor { constant_pool: self.constant_pool, info_or_err: Ok(info) },
                    ),
                ),
                Ok(CpInfo::Methodref(info)) => Ok(
                    MethodHandleReference::Methodref(
                        MethodrefCpAccessor { constant_pool: self.constant_pool, info_or_err: Ok(info) },
                    ),
                ),
                Ok(CpInfo::InterfaceMethodref(info)) => Ok(
                    MethodHandleReference::InterfaceMethodref(
                        InterfaceMethodrefCpAccessor {
                            constant_pool: self.constant_pool,
                            info_or_err: Ok(info),
                        },
                    ),
                ),
                Ok(other_info) => Err(
                    wrong_variant_error(
                        "CONSTANT_Fieldref_info or CONSTANT_Methodref_info or CONSTANT_InterfaceMethodref_info",
                        other_info,
                        method_handle_info.reference_index,
                    ),
                ),
                Err(e) => Err(e),
            },
            Err(e) => Err(AccessError { message: e.message.clone() }),
        }
    }
}

pub struct MethodTypeCpAccessor<'a> {
    pub constant_pool: &'a Vec<CpInfo>,
    pub info_or_err: Result<&'a ConstantMethodTypeInfo, AccessError>,
}

impl<'a> MethodTypeCpAccessor<'a> {
    /// Resolves `index`, expecting a MethodType entry.
    pub fn from(constant_pool: &'a Vec<CpInfo>, index: u16) -> (r: MethodTypeCpAccessor<'a>)
        ensures
            r.constant_pool == constant_pool,
            r.info_or_err is Ok <==> cp_has(constant_pool@, index) && cp_at(constant_pool@, index)
                is MethodType,
            r.info_or_err is Ok ==> *r.info_or_err->Ok_0 == cp_at(constant_pool@, index)->MethodType_0,
    {
        match get_constant_pool_info(constant_pool, index) {
            Ok(CpInfo::MethodType(info)) => MethodTypeCpAccessor { constant_pool, info_or_err: Ok(info) },
            Ok(other_info) => MethodTypeCpAccessor {
                constant_pool,
                info_or_err: Err(wrong_variant_error("CONSTANT_MethodType_info", other_info, index)),
            },
            Err(e) => MethodTypeCpAccessor { constant_pool, info_or_err: Err(e) },
        }
    }

    /// An accessor that only carries an earlier hop's failure onward.
    pub fn error(constant_pool: &'a Vec<CpInfo>, e: &AccessError) -> (r: MethodTypeCpAccessor<'a>)
        ensures
            r.constant_pool == constant_pool,
            r.info_or_err is Err,
            r.info_or_err->Err_0 == *e,
    {
        MethodTypeCpAccessor { constant_pool, info_or_err: Err(AccessError { message: e.message.clone() }) }
    }

    /// The descriptor text this entry points at.
    pub fn descriptor(&self) -> (r: Utf8CpAccessor<'a>)
        ensures
            r.constant_pool == self.constant_pool,
            self.info_or_err is Err ==> r.info_or_err is Err && r.info_or_err->Err_0
                == self.info_or_err->Err_0,
            self.info_or_err is Ok ==> {
                &&& r.info_or_err is Ok <==> cp_has(self.constant_pool@, self.info_or_err->Ok_0.descriptor_index)
                    && cp_at(self.constant_pool@, self.info_or_err->Ok_0.descriptor_index) is Utf8
                &&& r.info_or_err is Ok ==> *r.info_or_err->Ok_0 == cp_at(
                    self.constant_pool@,
                    self.info_or_err->Ok_0.descriptor_index,
                )->Utf8_0
            },
    {
        match &self.info_or_err {
            Ok(info) => Utf8CpAccessor::from(self.constant_pool, info.descriptor_index),
            Err(e) => Utf8CpAccessor::error(self.constant_pool, e),
        }
    }
}

pub struct DynamicCpAccessor<'a> {
    pub constant_pool: &'a Vec<CpInfo>,
    pub info_or_err: Result<&'a ConstantDynamicInfo, AccessError>,
}

impl<'a> DynamicCpAccessor<'a> {
    /// Resolves `index`, expecting a Dynamic entry.
    pub fn from(constant_pool: &'a Vec<CpInfo>, index: u16) -> (r: DynamicCpAccessor<'a>)
        ensures
            r.constant_pool == constant_pool,
            r.info_or_err is Ok <==> cp_has(constant_pool@, index) && cp_at(constant_pool@, index)
                is Dynamic,
            r.info_or_err is Ok ==> *r.info_or_err->Ok_0 == cp_at(constant_pool@, index)->Dynamic_0,
    {
        match get_constant_pool_info(constant_pool, index) {
            Ok(CpInfo::Dynamic(info)) => DynamicCpAccessor { constant_pool, info_or_err: Ok(info) },
            Ok(other_info) => DynamicCpAccessor {
                constant_pool,
                info_or_err: Err(wrong_variant_error("CONSTANT_Dynamic_info", other_info, index)),
            },
            Err(e) => DynamicCpAccessor { constant_pool, info_or_err: Err(e) },
        }
    }

    /// An accessor that only carries an earlier hop's failure onward.
    pub fn error(constant_pool: &'a Vec<CpInfo>, e: &AccessError) -> (r: DynamicCpAccessor<'a>)
        ensures
            r.constant_pool == constant_pool,
            r.info_or_err is Err,
            r.info_or_err->Err_0 == *e,
    {
        DynamicCpAccessor { constant_pool, info_or_err: Err(AccessError { message: e.message.clone() }) }
    }

    /// The stored index into the bootstrap method table.
    pub fn get_bootstrap_method_attr_index(&self) -> (r: Result<u16, AccessError>)
        ensures
            r is Ok <==> self.info_or_err is Ok,
            self.info_or_err is Err ==> r is Err && r->Err_0 == self.info_or_err->Err_0,
            r is Ok ==> r->Ok_0 == self.info_or_err->Ok_0.bootstrap_method_attr_index,
    {
        match &self.info_or_err {
            Ok(info) => Ok(info.bootstrap_method_attr_index),
            Err(e) => Err(AccessError { message: e.message.clone() }),
        }
    }

    /// The name and descriptor pair of the dynamically computed constant.
    pub fn name_and_type(&self) -> (r: NameAndTypeCpAccessor<'a>)
        ensures
            r.constant_pool == self.constant_pool,
            self.info_or_err is Err ==> r.info_or_err is Err && r.info_or_err->Err_0
                == self.info_or_err->Err_0,
            self.info_or_err is Ok ==> {
                &&& r.info_or_err is Ok <==> cp_has(self.constant_pool@, self.info_or_err->Ok_0.name_and_type_index)
                    && cp_at(self.constant_pool@, self.info_or_err->Ok_0.name_and_type_index) is NameAndType
                &&& r.info_or_err is Ok ==> *r.info_or_err->Ok_0 == cp_at(
                    self.constant_pool@,
                    self.info_or_err->Ok_0.name_and_type_index,
                )->NameAndType_0
            },
    {
        match &self.info_or_err {
            Ok(info) => NameAndTypeCpAccessor::from(self.constant_pool, info.name_and_type_index),
            Err(e) => NameAndTypeCpAccessor::error(self.constant_pool, e),
        }
    }
}

pub struct InvokeDynamicCpAccessor<'a> {
    pub constant_pool: &'a Vec<CpInfo>,
    pub info_or_err: Result<&'a ConstantInvokeDynamicInfo, AccessError>,
}

impl<'a> InvokeDynamicCpAccessor<'a> {
    /// Resolves `index`, expecting a InvokeDynamic entry.
    pub fn from(constant_pool: &'a Vec<CpInfo>, index: u16) -> (r: InvokeDynamicCpAccessor<'a>)
        ensures
            r.constant_pool == constant_pool,
            r.info_or_err is Ok <==> cp_has(constant_pool@, index) && cp_at(constant_pool@, index)
                is InvokeDynamic,
            r.info_or_err is Ok ==> *r.info_or_err->Ok_0 == cp_at(constant_pool@, index)->InvokeDynamic_0,
    {
        match get_constant_pool_info(constant_pool, index) {
            Ok(CpInfo::InvokeDynamic(info)) => InvokeDynamicCpAccessor { constant_pool, info_or_err: Ok(info) },
            Ok(other_info) => InvokeDynamicCpAccessor {
                constant_pool,
                info_or_err: Err(wrong_variant_error("CONSTANT_InvokeDynamic_info", other_info, index)),
            },
            Err(e) => InvokeDynamicCpAccessor { constant_pool, info_or_err: Err(e) },
        }
    }

    /// An accessor that only carries an earlier hop's failure onward.
    pub fn error(constant_pool: &'a Vec<CpInfo>, e: &AccessError) -> (r: InvokeDynamicCpAccessor<'a>)
        ensures
            r.constant_pool == constant_pool,
            r.info_or_err is Err,
            r.info_or_err->Err_0 == *e,
    {
        InvokeDynamicCpAccessor { constant_pool, info_or_err: Err(AccessError { message: e.message.clone() }) }
    }

    /// The stored index into the bootstrap method table.
    pub fn get_bootstrap_method_attr_index(&self) -> (r: Result<u16, AccessError>)
        ensures
            r is Ok <==> self.info_or_err is Ok,
            self.info_or_err is Err ==> r is Err && r->Err_0 == self.info_or_err->Err_0,
            r is Ok ==> r->Ok_0 == self.info_or_err->Ok_0.bootstrap_method_attr_index,
    {
        match &self.info_or_err {
            Ok(info) => Ok(info.bootstrap_method_attr_index),
            Err(e) => Err(AccessError { message: e.message.clone() }),
        }
    }

    /// The name and descriptor pair of the call site.
    pub fn name_and_type(&self) -> (r: NameAndTypeCpAccessor<'a>)
        ensures
            r.constant_pool == self.constant_pool,
            self.info_or_err is Err ==> r.info_or_err is Err && r.info_or_err->Err_0
                == self.info_or_err->Err_0,
            self.info_or_err is Ok ==> {
                &&& r.info_or_err is Ok <==> cp_has(self.constant_pool@, self.info_or_err->Ok_0.name_and_type_index)
                    && cp_at(self.constant_pool@, self.info_or_err->Ok_0.name_and_type_index) is NameAndType
                &&& r.info_or_err is Ok ==> *r.info_or_err->Ok_0 == cp_at(
                    self.constant_pool@,
                    self.info_or_err->Ok_0.name_and_type_index,
                )->NameAndType_0
            },
    {
        match &self.info_or_err {
            Ok(info) => NameAndTypeCpAccessor::from(self.constant_pool, info.name_and_type_index),
            Err(e) => NameAndTypeCpAccessor::error(self.constant_pool, e),
        }
    }
}

pub struct ModuleCpAccessor<'a> {
    pub constant_pool: &'a Vec<CpInfo>,
    pub info_or_err: Result<&'a ConstantModuleInfo, AccessError>,
}

impl<'a> ModuleCpAccessor<'a> {
    /// Resolves `index`, expecting a Module entry.
    pub fn from(constant_pool: &'a Vec<CpInfo>, index: u16) -> (r: ModuleCpAccessor<'a>)
        ensures
            r.constant_pool == constant_pool,
            r.info_or_err is Ok <==> cp_has(constant_pool@, index) && cp_at(constant_pool@, index)
                is Module,
            r.info_or_err is Ok ==> *r.info_or_err->Ok_0 == cp_at(constant_pool@, index)->Module_0,
    {
        match get_constant_pool_info(constant_pool, index) {
            Ok(CpInfo::Module(info)) => ModuleCpAccessor { constant_pool, info_or_err: Ok(info) },
            Ok(other_info) => ModuleCpAccessor {
                constant_pool,
                info_or_err: Err(wrong_variant_error("CONSTANT_Module_info", other_info, index)),
            },
            Err(e) => ModuleCpAccessor { constant_pool, info_or_err: Err(e) },
        }
    }

    /// An accessor that only carries an earlier hop's failure onward.
    pub fn error(constant_pool: &'a Vec<CpInfo>, e: &AccessError) -> (r: ModuleCpAccessor<'a>)
        ensures
            r.constant_pool == constant_pool,
            r.info_or_err is Err,
            r.info_or_err->Err_0 == *e,
    {
        ModuleCpAccessor { constant_pool, info_or_err: Err(AccessError { message: e.message.clone() }) }
    }

    /// The module name this entry points at.
    pub fn name(&self) -> (r: Utf8CpAccessor<'a>)
        ensures
            r.constant_pool == self.constant_pool,
            self.info_or_err is Err ==> r.info_or_err is Err && r.info_or_err->Err_0
                == self.info_or_err->Err_0,
            self.info_or_err is Ok ==> {
                &&& r.info_or_err is Ok <==> cp_has(self.constant_pool@, self.info_or_err->Ok_0.name_index)
                    && cp_at(self.constant_pool@, self.info_or_err->Ok_0.name_index) is Utf8
                &&& r.info_or_err is Ok ==> *r.info_or_err->Ok_0 == cp_at(
                    self.constant_pool@,
                    self.info_or_err->Ok_0.name_index,
                )->Utf8_0
            },
    {
        match &self.info_or_err {
            Ok(info) => Utf8CpAccessor::from(self.constant_pool, info.name_index),
            Err(e) => Utf8CpAccessor::error(self.constant_pool, e),
        }
    }
}

pub struct PackageCpAccessor<'a> {
    pub constant_pool: &'a Vec<CpInfo>,
    pub info_or_err: Result<&'a ConstantPackageInfo, AccessError>,
}

impl<'a> PackageCpAccessor<'a> {
    /// Resolves `index`, expecting a Package entry.
    pub fn from(constant_pool: &'a Vec<CpInfo>, index: u16) -> (r: PackageCpAccessor<'a>)
        ensures
            r.constant_pool == constant_pool,
            r.info_or_err is Ok <==> cp_has(constant_pool@, index) && cp_at(constant_pool@, index)
                is Package,
            r.info_or_err is Ok ==> *r.info_or_err->Ok_0 == cp_at(constant_pool@, index)->Package_0,
    {
        match get_constant_pool_info(constant_pool, index) {
            Ok(CpInfo::Package(info)) => PackageCpAccessor { constant_pool, info_or_err: Ok(info) },
            Ok(other_info) => PackageCpAccessor {
                constant_pool,
                info_or_err: Err(wrong_variant_error("CONSTANT_Package_info", other_info, index)),
            },
            Err(e) => PackageCpAccessor { constant_pool, info_or_err: Err(e) },
        }
    }

    /// An accessor that only carries an earlier hop's failure onward.
    pub fn error(constant_pool: &'a Vec<CpInfo>, e: &AccessError) -> (r: PackageCpAccessor<'a>)
        ensures
            r.constant_pool == constant_pool,
            r.info_or_err is Err,
            r.info_or_err->Err_0 == *e,
    {
        PackageCpAccessor { constant_pool, info_or_err: Err(AccessError { message: e.message.clone() }) }
    }

    /// The package name this entry points at.
    pub fn name(&self) -> (r: Utf8CpAccessor<'a>)
        ensures
            r.constant_pool == self.constant_pool,
            self.info_or_err is Err ==> r.info_or_err is Err && r.info_or_err->Err_0
                == self.info_or_err->Err_0,
            self.info_or_err is Ok ==> {
                &&& r.info_or_err is Ok <==> cp_has(self.constant_pool@, self.info_or_err->Ok_0.name_index)
                    && cp_at(self.constant_pool@, self.info_or_err->Ok_0.name_index) is Utf8
                &&& r.info_or_err is Ok ==> *r.info_or_err->Ok_0 == cp_at(
                    self.constant_pool@,
                    self.info_or_err->Ok_0.name_index,
                )->Utf8_0
            },
    {
        match &self.info_or_err {
            Ok(info) => Utf8CpAccessor::from(self.constant_pool, info.name_index),
            Err(e) => Utf8CpAccessor::error(self.constant_pool, e),
        }
    }
}


/// The accessor layer's entry point on the pool itself: each method
/// resolves a 1-based logical index to the entry variant its name
/// promises, as an accessor value that carries either the entry or a
/// descriptive error.
pub trait CpAccessor: View<V = Seq<CpInfo>> {
    /// Resolves a 1-based index, expecting a Utf8 entry.
    fn access_as_utf8<'a>(&'a self, index: u16) -> (r: Utf8CpAccessor<'a>)
        ensures
            r.constant_pool@ == self@,
            r.info_or_err is Ok <==> cp_has(self@, index) && cp_at(self@, index) is Utf8,
            r.info_or_err is Ok ==> *r.info_or_err->Ok_0 == cp_at(self@, index)->Utf8_0,
    ;

    /// Resolves a 1-based index, expecting a Integer entry.
    fn access_as_integer<'a>(&'a self, index: u16) -> (r: IntegerCpAccessor<'a>)
        ensures
            r.constant_pool@ == self@,
            r.info_or_err is Ok <==> cp_has(self@, index) && cp_at(self@, index) is Integer,
            r.info_or_err is Ok ==> *r.info_or_err->Ok_0 == cp_at(self@, index)->Integer_0,
    ;

    /// Resolves a 1-based index, expecting a Float entry.
    fn access_as_float<'a>(&'a self, index: u16) -> (r: FloatCpAccessor<'a>)
        ensures
            r.constant_pool@ == self@,
            r.info_or_err is Ok <==> cp_has(self@, index) && cp_at(self@, index) is Float,
            r.info_or_err is Ok ==> *r.info_or_err->Ok_0 == cp_at(self@, index)->Float_0,
    ;

    /// Resolves a 1-based index, expecting a Double entry.
    fn access_as_double<'a>(&'a self, index: u16) -> (r: DoubleCpAccessor<'a>)
        ensures
            r.constant_pool@ == self@,
            r.info_or_err is Ok <==> cp_has(self@, index) && cp_at(self@, index) is Double,
            r.info_or_err is Ok ==> *r.info_or_err->Ok_0 == cp_at(self@, index)->Double_0,
    ;

    /// Resolves a 1-based index, expecting a Class entry.
    fn access_as_class<'a>(&'a self, index: u16) -> (r: ClassCpAccessor<'a>)
        ensures
            r.constant_pool@ == self@,
            r.info_or_err is Ok <==> cp_has(self@, index) && cp_at(self@, index) is Class,
            r.info_or_err is Ok ==> *r.info_or_err->Ok_0 == cp_at(self@, index)->Class_0,
    ;

    /// Resolves a 1-based index, expecting a Fieldref entry.
    fn access_as_fieldref<'a>(&'a self, index: u16) -> (r: FieldrefCpAccessor<'a>)
        ensures
            r.constant_pool@ == self@,
            r.info_or_err is Ok <==> cp_has(self@, index) && cp_at(self@, index) is Fieldref,
            r.info_or_err is Ok ==> *r.info_or_err->Ok_0 == cp_at(self@, index)->Fieldref_0,
    ;

    /// Resolves a 1-based index, expecting a Methodref entry.
    fn access_as_methodref<'a>(&'a self, index: u16) -> (r: MethodrefCpAccessor<'a>)
        ensures
            r.constant_pool@ == self@,
            r.info_or_err is Ok <==> cp_has(self@, index) && cp_at(self@, index) is Methodref,
            r.info_or_err is Ok ==> *r.info_or_err->Ok_0 == cp_at(self@, index)->Methodref_0,
    ;

    /// Resolves a 1-based index, expecting a InterfaceMethodref entry.
    fn access_as_interface_methodref<'a>(&'a self, index: u16) -> (r: InterfaceMethodrefCpAccessor<'a>)
        ensures
            r.constant_pool@ == self@,
            r.info_or_err is Ok <==> cp_has(self@, index) && cp_at(self@, index) is InterfaceMethodref,
            r.info_or_err is Ok ==> *r.info_or_err->Ok_0 == cp_at(self@, index)->InterfaceMethodref_0,
    ;

    /// Resolves a 1-based index, expecting a NameAndType entry.
    fn access_as_name_and_type<'a>(&'a self, index: u16) -> (r: NameAndTypeCpAccessor<'a>)
        ensures
            r.constant_pool@ == self@,
            r.info_or_err is Ok <==> cp_has(self@, index) && cp_at(self@, index) is NameAndType,
            r.info_or_err is Ok ==> *r.info_or_err->Ok_0 == cp_at(self@, index)->NameAndType_0,
    ;

    /// Resolves a 1-based index, expecting a MethodHandle entry.
    fn access_as_method_handle<'a>(&'a self, index: u16) -> (r: MethodHandleCpAccessor<'a>)
        ensures
            r.constant_pool@ == self@,
            r.info_or_err is Ok <==> cp_has(self@, index) && cp_at(self@, index) is MethodHandle,
            r.info_or_err is Ok ==> *r.info_or_err->Ok_0 == cp_at(self@, index)->MethodHandle_0,
    ;

    /// Resolves a 1-based index, expecting a MethodType entry.
    fn access_as_method_type<'a>(&'a self, index: u16) -> (r: MethodTypeCpAccessor<'a>)
        ensures
            r.constant_pool@ == self@,
            r.info_or_err is Ok <==> cp_has(self@, index) && cp_at(self@, index) is MethodType,
            r.info_or_err is Ok ==> *r.info_or_err->Ok_0 == cp_at(self@, index)->MethodType_0,
    ;

    /// Resolves a 1-based index, expecting a Dynamic entry.
    fn access_as_dynamic<'a>(&'a self, index: u16) -> (r: DynamicCpAccessor<'a>)
        ensures
            r.constant_pool@ == self@,
            r.info_or_err is Ok <==> cp_has(self@, index) && cp_at(self@, index) is Dynamic,
            r.info_or_err is Ok ==> *r.info_or_err->Ok_0 == cp_at(self@, index)->Dynamic_0,
    ;

    /// Resolves a 1-based index, expecting a InvokeDynamic entry.
    fn access_as_invoke_dynamic<'a>(&'a self, index: u16) -> (r: InvokeDynamicCpAccessor<'a>)
        ensures
            r.constant_pool@ == self@,
            r.info_or_err is Ok <==> cp_has(self@, index) && cp_at(self@, index) is InvokeDynamic,
            r.info_or_err is Ok ==> *r.info_or_err->Ok_0 == cp_at(self@, index)->InvokeDynamic_0,
    ;

    /// Resolves a 1-based index, expecting a Module entry.
    fn access_as_module<'a>(&'a self, index: u16) -> (r: ModuleCpAccessor<'a>)
        ensures
            r.constant_pool@ == self@,
            r.info_or_err is Ok <==> cp_has(self@, index) && cp_at(self@, index) is Module,
            r.info_or_err is Ok ==> *r.info_or_err->Ok_0 == cp_at(self@, index)->Module_0,
    ;

    /// Resolves a 1-based index, expecting a Package entry.
    fn access_as_package<'a>(&'a self, index: u16) -> (r: PackageCpAccessor<'a>)
        ensures
            r.constant_pool@ == self@,
            r.info_or_err is Ok <==> cp_has(self@, index) && cp_at(self@, index) is Package,
            r.info_or_err is Ok ==> *r.info_or_err->Ok_0 == cp_at(self@, index)->Package_0,
    ;
}

impl CpAccessor for Vec<CpInfo> {
    fn access_as_utf8<'a>(&'a self, index: u16) -> (r: Utf8CpAccessor<'a>) {
        Utf8CpAccessor::from(self, index)
    }

    fn access_as_integer<'a>(&'a self, index: u16) -> (r: IntegerCpAccessor<'a>) {
        IntegerCpAccessor::from(self, index)
    }

    fn access_as_float<'a>(&'a self, index: u16) -> (r: FloatCpAccessor<'a>) {
        FloatCpAccessor::from(self, index)
    }

    fn access_as_double<'a>(&'a self, index: u16) -> (r: DoubleCpAccessor<'a>) {
        DoubleCpAccessor::from(self, index)
    }

    fn access_as_class<'a>(&'a self, index: u16) -> (r: ClassCpAccessor<'a>) {
        ClassCpAccessor::from(self, index)
    }

    fn access_as_fieldref<'a>(&'a self, index: u16) -> (r: FieldrefCpAccessor<'a>) {
        FieldrefCpAccessor::from(self, index)
    }

    fn access_as_methodref<'a>(&'a self, index: u16) -> (r: MethodrefCpAccessor<'a>) {
        MethodrefCpAccessor::from(self, index)
    }

    fn access_as_interface_methodref<'a>(&'a self, index: u16) -> (r: InterfaceMethodrefCpAccessor<'a>) {
        InterfaceMethodrefCpAccessor::from(self, index)
    }

    fn access_as_name_and_type<'a>(&'a self, index: u16) -> (r: NameAndTypeCpAccessor<'a>) {
        NameAndTypeCpAccessor::from(self, index)
    }

    fn access_as_method_handle<'a>(&'a self, index: u16) -> (r: MethodHandleCpAccessor<'a>) {
        MethodHandleCpAccessor::from(self, index)
    }

    fn access_as_method_type<'a>(&'a self, index: u16) -> (r: MethodTypeCpAccessor<'a>) {
        MethodTypeCpAccessor::from(self, index)
    }

    fn access_as_dynamic<'a>(&'a self, index: u16) -> (r: DynamicCpAccessor<'a>) {
        DynamicCpAccessor::from(self, index)
    }

    fn access_as_invoke_dynamic<'a>(&'a self, index: u16) -> (r: InvokeDynamicCpAccessor<'a>) {
        InvokeDynamicCpAccessor::from(self, index)
    }

    fn access_as_module<'a>(&'a self, index: u16) -> (r: ModuleCpAccessor<'a>) {
        ModuleCpAccessor::from(self, index)
    }

    fn access_as_package<'a>(&'a self, index: u16) -> (r: PackageCpAccessor<'a>) {
        PackageCpAccessor::from(self, index)
    }
}

} // verus!
