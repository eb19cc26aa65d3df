//! Registry value data and its typed decoding.
//!
//! A registry read hands back a value's type code and its raw bytes; the
//! conversions here check the type code and decode the bytes.  Opening keys
//! and enumerating values is host I/O and lives in the embedding program.

use vstd::prelude::*;

verus! {

/// Registry value type code: no value.
pub const REG_NONE: u32 = 0;

/// Registry value type code: a wide string.
pub const REG_SZ: u32 = 1;

/// Registry value type code: a wide string with environment references.
pub const REG_EXPAND_SZ: u32 = 2;

/// Registry value type code: raw bytes.
pub const REG_BINARY: u32 = 3;

/// Registry value type code: a 32-bit little-endian number.
pub const REG_DWORD: u32 = 4;

/// Registry value type code: a 32-bit big-endian number.
pub const REG_DWORD_BIG_ENDIAN: u32 = 5;

/// Registry value type code: a list of wide strings.
pub const REG_MULTI_SZ: u32 = 7;

/// Registry value type code: a 64-bit little-endian number.
pub const REG_QWORD: u32 = 11;

/// A registry value had a type other than the conversion expected.
#[derive(Debug, Clone, PartialEq, Eq)]
pub struct UnexpectedRegistryData {
    expect: u32,
    actual: u32,
    data: Vec<u8>,
}

impl UnexpectedRegistryData {
    pub closed spec fn spec_expect(&self) -> u32 {
        self.expect
    }

    pub closed spec fn spec_actual(&self) -> u32 {
        self.actual
    }

    pub closed spec fn spec_data(&self) -> Seq<u8> {
        self.data@
    }

    pub fn new(expect: u32, actual: u32, data: Vec<u8>) -> (r: UnexpectedRegistryData)
        ensures
            r.spec_expect() == expect,
            r.spec_actual() == actual,
            r.spec_data() == data@,
    {
        UnexpectedRegistryData { expect, actual, data }
    }

    /// Convert the error back into the registry data it rejected.
    pub fn into_registry_data(self) -> (r: RegistryData)
        ensures
            r.ty == self.spec_actual(),
            r.data@ == self.spec_data(),
    {
        RegistryData::from_data(self.actual, self.data)
    }

    /// A short name for a registry value type code, for rendered errors.
    pub fn code_to_str(code: u32) -> &'static str {
        if code == REG_BINARY {
            "[BINARY]"
        } else if code == REG_DWORD {
            "[DWORD]"
        } else if code == REG_DWORD_BIG_ENDIAN {
            "[DWORD_BIG_ENDIAN]"
        } else if code == REG_QWORD {
            "[QWORD]"
        } else if code == REG_SZ {
            "[SZ]"
        } else if code == REG_EXPAND_SZ {
            "[EXPAND_SZ]"
        } else if code == REG_MULTI_SZ {
            "[MULTI_SZ]"
        } else if code == REG_NONE {
            "[NONE]"
        } else {
            "unsupported registry value type"
        }
    }
}

/// The value of a 32-bit little-endian number held in four bytes.
pub open spec fn le_u32_of(b: Seq<u8>) -> int
    recommends
        b.len() == 4,
{
    b[0] + b[1] * 0x100 + b[2] * 0x1_0000 + b[3] * 0x100_0000
}

/// The value of a 32-bit big-endian number held in four bytes.
pub open spec fn be_u32_of(b: Seq<u8>) -> int
    recommends
        b.len() == 4,
{
    b[3] + b[2] * 0x100 + b[1] * 0x1_0000 + b[0] * 0x100_0000
}

/// The value of a 64-bit little-endian number held in eight bytes.
pub open spec fn le_u64_of(b: Seq<u8>) -> int
    recommends
        b.len() == 8,
{
    le_u32_of(b.subrange(0, 4)) + le_u32_of(b.subrange(4, 8)) * 0x1_0000_0000
}

/// The value of a 64-bit big-endian number held in eight bytes.
pub open spec fn be_u64_of(b: Seq<u8>) -> int
    recommends
        b.len() == 8,
{
    be_u32_of(b.subrange(4, 8)) + be_u32_of(b.subrange(0, 4)) * 0x1_0000_0000
}

/// One registry value: its type code and its raw bytes.
#[derive(Debug)]
pub struct RegistryData {
    pub data: Vec<u8>,
    pub ty: u32,
}

impl RegistryData {
    pub fn from_data(ty: u32, data: Vec<u8>) -> (r: RegistryData)
        ensures
            r.ty == ty,
            r.data@ == data@,
    {
        RegistryData { data, ty }
    }

    /// Decode a 32-bit number, honouring the value's declared byte order;
    /// any other shape is handed back as unexpected data.
    pub fn try_into_u32(self) -> (r: Result<u32, UnexpectedRegistryData>)
        ensures
            match r {
                Ok(v) => self.data@.len() == 4 && ((self.ty == REG_DWORD && v == le_u32_of(
                    self.data@,
                )) || (self.ty == REG_DWORD_BIG_ENDIAN && v == be_u32_of(self.data@))),
                Err(e) => !(self.data@.len() == 4 && (self.ty == REG_DWORD || self.ty
                    == REG_DWORD_BIG_ENDIAN)) && e.spec_expect() == REG_DWORD
                    && e.spec_actual() == self.ty && e.spec_data() == self.data@,
            },
    {
        if self.ty == REG_DWORD && self.data.len() == 4 {
            let v = (self.data[0] as u32) + (self.data[1] as u32) * 0x100 + (self.data[2] as u32)
                * 0x1_0000 + (self.data[3] as u32) * 0x100_0000;
            Ok(v)
        } else if self.ty == REG_DWORD_BIG_ENDIAN && self.data.len() == 4 {
            let v = (self.data[3] as u32) + (self.data[2] as u32) * 0x100 + (self.data[1] as u32)
                * 0x1_0000 + (self.data[0] as u32) * 0x100_0000;
            Ok(v)
        } else {
            Err(UnexpectedRegistryData { expect: REG_DWORD, actual: self.ty, data: self.data })
        }
    }

    /// Decode a 64-bit number, honouring the value's declared byte order;
    /// any other shape is handed back as unexpected data.
    pub fn try_into_u64(self) -> (r: Result<u64, UnexpectedRegistryData>)
        ensures
            match r {
                Ok(v) => self.data@.len() == 8 && ((self.ty == REG_DWORD && v == le_u64_of(
                    self.data@,
                )) || (self.ty == REG_DWORD_BIG_ENDIAN && v == be_u64_of(self.data@))),
                Err(e) => !(self.data@.len() == 8 && (self.ty == REG_DWORD || self.ty
                    == REG_DWORD_BIG_ENDIAN)) && e.spec_expect() == REG_QWORD
                    && e.spec_actual() == self.ty && e.spec_data() == self.data@,
            },
    {
        if self.ty == REG_DWORD && self.data.len() == 8 {
            let lo = (self.data[0] as u64) + (self.data[1] as u64) * 0x100 + (self.data[2] as u64)
                * 0x1_0000 + (self.data[3] as u64) * 0x100_0000;
            let hi = (self.data[4] as u64) + (self.data[5] as u64) * 0x100 + (self.data[6] as u64)
                * 0x1_0000 + (self.data[7] as u64) * 0x100_0000;
            proof {
                assert(self.data@.subrange(0, 4)[0] == self.data@[0]);
                assert(self.data@.subrange(0, 4)[1] == self.data@[1]);
                assert(self.data@.subrange(0, 4)[2] == self.data@[2]);
                assert(self.data@.subrange(0, 4)[3] == self.data@[3]);
                assert(self.data@.subrange(4, 8)[0] == self.data@[4]);
                assert(self.data@.subrange(4, 8)[1] == self.data@[5]);
                assert(self.data@.subrange(4, 8)[2] == self.data@[6]);
                assert(self.data@.subrange(4, 8)[3] == self.data@[7]);
            }
            Ok(lo + hi * 0x1_0000_0000)
        } else if self.ty == REG_DWORD_BIG_ENDIAN && self.data.len() == 8 {
            let hi = (self.data[3] as u64) + (self.data[2] as u64) * 0x100 + (self.data[1] as u64)
                * 0x1_0000 + (self.data[0] as u64) * 0x100_0000;
            let lo = (self.data[7] as u64) + (self.data[6] as u64) * 0x100 + (self.data[5] as u64)
                * 0x1_0000 + (self.data[4] as u64) * 0x100_0000;
            proof {
                assert(self.data@.subrange(0, 4)[0] == self.data@[0]);
                assert(self.data@.subrange(0, 4)[1] == self.data@[1]);
                assert(self.data@.subrange(0, 4)[2] == self.data@[2]);
                assert(self.data@.subrange(0, 4)[3] == self.data@[3]);
                assert(self.data@.subrange(4, 8)[0] == self.data@[4]);
                assert(self.data@.subrange(4, 8)[1] == self.data@[5]);
                assert(self.data@.subrange(4, 8)[2] == self.data@[6]);
                assert(self.data@.subrange(4, 8)[3] == self.data@[7]);
            }
            Ok(lo + hi * 0x1_0000_0000)
        } else {
            Err(UnexpectedRegistryData { expect: REG_QWORD, actual: self.ty, data: self.data })
        }
    }
}

} // verus!
