//! Register codec on integers: byte order, word order, signedness and range.
//! The affine scale and offset of a point are applied to these raw integers
//! outside this library.

use vstd::prelude::*;
use crate::catalog::{ByteOrder, ModbusDataType};

verus! {

/// A 16-bit word with its two bytes exchanged.
pub open spec fn swap16(v: u16) -> u16 {
    ((v as int % 256) * 256 + v as int / 256) as u16
}

/// A word as read under a byte order: `BA` exchanges its bytes.
pub open spec fn order16(v: u16, order: Option<ByteOrder>) -> u16 {
    if order == Some(ByteOrder::BA) {
        swap16(v)
    } else {
        v
    }
}

/// Word `i` of a register slice, zero past its end.
pub open spec fn word_at(ws: Seq<u16>, i: int) -> u16 {
    if 0 <= i < ws.len() {
        ws[i]
    } else {
        0
    }
}

/// Two words as a 32-bit value: `CDAB` puts the second word high.
pub open spec fn order32(ws: Seq<u16>, order: Option<ByteOrder>) -> u32 {
    let w0 = word_at(ws, 0) as int;
    let w1 = word_at(ws, 1) as int;
    if order == Some(ByteOrder::CDAB) {
        (w1 * 0x10000 + w0) as u32
    } else {
        (w0 * 0x10000 + w1) as u32
    }
}

pub open spec fn signed16(v: u16) -> int {
    if v >= 0x8000 {
        v - 0x10000
    } else {
        v as int
    }
}

pub open spec fn signed32(v: u32) -> int {
    if v >= 0x8000_0000 {
        v - 0x1_0000_0000
    } else {
        v as int
    }
}

/// The raw integer that a point of type `dt` holds in the words `ws`; a
/// boolean point reads 1 when its first word is nonzero.
pub open spec fn decode_spec(dt: ModbusDataType, order: Option<ByteOrder>, ws: Seq<u16>) -> int {
    match dt {
        ModbusDataType::Bool => if word_at(ws, 0) != 0 {
            1
        } else {
            0
        },
        ModbusDataType::U16 => order16(word_at(ws, 0), order) as int,
        ModbusDataType::I16 => signed16(order16(word_at(ws, 0), order)),
        ModbusDataType::U32 => order32(ws, order) as int,
        ModbusDataType::I32 => signed32(order32(ws, order)),
    }
}

/// Raw integers that a point of type `dt` can carry.
pub open spec fn in_range(dt: ModbusDataType, raw: int) -> bool {
    match dt {
        ModbusDataType::Bool => true,
        ModbusDataType::U16 => 0 <= raw <= 0xFFFF,
        ModbusDataType::I16 => -0x8000 <= raw <= 0x7FFF,
        ModbusDataType::U32 => 0 <= raw <= 0xFFFF_FFFF,
        ModbusDataType::I32 => -0x8000_0000 <= raw <= 0x7FFF_FFFF,
    }
}

/// A 32-bit value as two words: high word first unless `CDAB`.
pub open spec fn split32(raw: u32, order: Option<ByteOrder>) -> Seq<u16> {
    let hi = (raw as int / 0x10000) as u16;
    let lo = (raw as int % 0x10000) as u16;
    if order == Some(ByteOrder::CDAB) {
        seq![lo, hi]
    } else {
        seq![hi, lo]
    }
}

/// The words that carry `raw` for a point of type `dt`, when it is in range.
pub open spec fn encode_spec(dt: ModbusDataType, order: Option<ByteOrder>, raw: int) -> Seq<u16> {
    match dt {
        ModbusDataType::Bool => seq![if raw != 0 { 1u16 } else { 0u16 }],
        ModbusDataType::U16 => seq![order16(raw as u16, order)],
        ModbusDataType::I16 => seq![
            order16((if raw < 0 { raw + 0x10000 } else { raw }) as u16, order),
        ],
        ModbusDataType::U32 => split32(raw as u32, order),
        ModbusDataType::I32 => split32(
            (if raw < 0 { raw + 0x1_0000_0000 } else { raw }) as u32,
            order,
        ),
    }
}

pub fn swap_bytes16(v: u16) -> (r: u16)
    ensures
        r == swap16(v),
{
    (v % 256) * 256 + v / 256
}

pub fn u16_with_order(v: u16, order: Option<ByteOrder>) -> (r: u16)
    ensures
        r == order16(v, order),
{
    match order {
        Some(ByteOrder::BA) => swap_bytes16(v),
        _ => v,
    }
}

pub fn u32_with_order(data: &[u16], order: Option<ByteOrder>) -> (r: u32)
    ensures
        r == order32(data@, order),
{
    let w0: u16 = if data.len() > 0 { data[0] } else { 0 };
    let w1: u16 = if data.len() > 1 { data[1] } else { 0 };
    match order {
        Some(ByteOrder::CDAB) => w1 as u32 * 0x10000 + w0 as u32,
        _ => w0 as u32 * 0x10000 + w1 as u32,
    }
}

pub fn encode_u32(raw: u32, order: Option<ByteOrder>) -> (r: [u16; 2])
    ensures
        r@ == split32(raw, order),
{
    let w0 = (raw / 0x10000) as u16;
    let w1 = (raw % 0x10000) as u16;
    let r = match order {
        Some(ByteOrder::CDAB) => [w1, w0],
        _ => [w0, w1],
    };
    assert(r@ =~= split32(raw, order));
    r
}

/// Decodes the words of one point into its raw integer.
pub fn decode_raw(dt: ModbusDataType, order: Option<ByteOrder>, data: &[u16]) -> (r: i64)
    ensures
        r as int == decode_spec(dt, order, data@),
{
    match dt {
        ModbusDataType::Bool => {
            if data.len() > 0 && data[0] != 0 {
                1
            } else {
                0
            }
        },
        ModbusDataType::U16 => {
            let w: u16 = if data.len() > 0 { data[0] } else { 0 };
            u16_with_order(w, order) as i64
        },
        ModbusDataType::I16 => {
            let w: u16 = if data.len() > 0 { data[0] } else { 0 };
            let v = u16_with_order(w, order);
            if v >= 0x8000 {
                v as i64 - 0x10000
            } else {
                v as i64
            }
        },
        ModbusDataType::U32 => u32_with_order(data, order) as i64,
        ModbusDataType::I32 => {
            let v = u32_with_order(data, order);
            if v >= 0x8000_0000 {
                v as i64 - 0x1_0000_0000
            } else {
                v as i64
            }
        },
    }
}

/// Encodes a raw integer into the words of a point of type `dt`; none when
/// the integer does not fit the type.
pub fn encode_registers(dt: ModbusDataType, order: Option<ByteOrder>, raw: i64) -> (r: Option<
    Vec<u16>,
>)
    ensures
        match r {
            Some(ws) => in_range(dt, raw as int) && ws@ == encode_spec(dt, order, raw as int),
            None => !in_range(dt, raw as int),
        },
{
    match dt {
        ModbusDataType::Bool => {
            let w: u16 = if raw != 0 { 1 } else { 0 };
            let v = vec![w];
            assert(v@ =~= encode_spec(dt, order, raw as int));
            Some(v)
        },
        ModbusDataType::U16 => {
            if raw < 0 || raw > 0xFFFF {
                return None;
            }
            let v = vec![u16_with_order(raw as u16, order)];
            assert(v@ =~= encode_spec(dt, order, raw as int));
            Some(v)
        },
        ModbusDataType::I16 => {
            if raw < -0x8000 || raw > 0x7FFF {
                return None;
            }
            let u: u16 = if raw < 0 { (raw + 0x10000) as u16 } else { raw as u16 };
            let v = vec![u16_with_order(u, order)];
            assert(v@ =~= encode_spec(dt, order, raw as int));
            Some(v)
        },
        ModbusDataType::U32 => {
            if raw < 0 || raw > 0xFFFF_FFFF {
                return None;
            }
            let a = encode_u32(raw as u32, order);
            let v = vec![a[0], a[1]];
            assert(v@ =~= encode_spec(dt, order, raw as int));
            Some(v)
        },
        ModbusDataType::I32 => {
            if raw < -0x8000_0000 || raw > 0x7FFF_FFFF {
                return None;
            }
            let u: u32 = if raw < 0 { (raw + 0x1_0000_0000) as u32 } else { raw as u32 };
            let a = encode_u32(u, order);
            let v = vec![a[0], a[1]];
            assert(v@ =~= encode_spec(dt, order, raw as int));
            Some(v)
        },
    }
}

proof fn lemma_swap_involutive(v: u16)
    ensures
        swap16(swap16(v)) == v,
{
    let s = swap16(v);
    assert(s as int == (v as int % 256) * 256 + v as int / 256);
    assert(s as int % 256 == v as int / 256);
    assert(s as int / 256 == v as int % 256);
}

proof fn lemma_split_combine(raw: u32, order: Option<ByteOrder>)
    ensures
        order32(split32(raw, order), order) == raw,
{
    let ws = split32(raw, order);
    assert(word_at(ws, 0) == ws[0] && word_at(ws, 1) == ws[1]);
}

/// Writing a raw integer in range and reading the words back gives the same
/// integer, for every type and byte order; a boolean reads back as 0 or 1.
pub proof fn lemma_encode_decode(dt: ModbusDataType, order: Option<ByteOrder>, raw: int)
    requires
        in_range(dt, raw),
    ensures
        decode_spec(dt, order, encode_spec(dt, order, raw)) == (if dt == ModbusDataType::Bool {
            if raw != 0 {
                1int
            } else {
                0int
            }
        } else {
            raw
        }),
{
    let ws = encode_spec(dt, order, raw);
    match dt {
        ModbusDataType::Bool => {
            assert(word_at(ws, 0) == ws[0]);
        },
        ModbusDataType::U16 => {
            assert(word_at(ws, 0) == ws[0]);
            lemma_swap_involutive(raw as u16);
        },
        ModbusDataType::I16 => {
            assert(word_at(ws, 0) == ws[0]);
            let u = (if raw < 0 { raw + 0x10000 } else { raw }) as u16;
            lemma_swap_involutive(u);
        },
        ModbusDataType::U32 => {
            lemma_split_combine(raw as u32, order);
        },
        ModbusDataType::I32 => {
            let u = (if raw < 0 { raw + 0x1_0000_0000 } else { raw }) as u32;
            lemma_split_combine(u, order);
        },
    }
}


#[derive(Debug, Clone)]
pub enum ModbusEntryError {
    InvalidFunctionCode(u8),
    InvalidDataType(String),
}

/// Value layouts of a register entry.
#[derive(Debug, Clone, Copy, PartialEq, Eq, Structural)]
pub enum ModbusEntryDataType {
    Bit,
    U16,
    I16,
    U32,
    I32,
    F32,
}

pub open spec fn entry_type_named(s: Seq<char>) -> Option<ModbusEntryDataType> {
    if s == "Bit"@ {
        Some(ModbusEntryDataType::Bit)
    } else if s == "U16"@ {
        Some(ModbusEntryDataType::U16)
    } else if s == "I16"@ {
        Some(ModbusEntryDataType::I16)
    } else if s == "U32"@ {
        Some(ModbusEntryDataType::U32)
    } else if s == "I32"@ {
        Some(ModbusEntryDataType::I32)
    } else if s == "F32"@ {
        Some(ModbusEntryDataType::F32)
    } else {
        None
    }
}

impl ModbusEntryDataType {
    pub fn try_from(value: String) -> (r: Result<ModbusEntryDataType, ModbusEntryError>)
        ensures
            match entry_type_named(value@) {
                Some(t) => r matches Ok(u) && u == t,
                None => r matches Err(ModbusEntryError::InvalidDataType(s)) && s@ == value@,
            },
    {
        let v = value.as_str();
        if crate::catalog::str_eq(v, "Bit") {
            Ok(ModbusEntryDataType::Bit)
        } else if crate::catalog::str_eq(v, "U16") {
            Ok(ModbusEntryDataType::U16)
        } else if crate::catalog::str_eq(v, "I16") {
            Ok(ModbusEntryDataType::I16)
        } else if crate::catalog::str_eq(v, "U32") {
            Ok(ModbusEntryDataType::U32)
        } else if crate::catalog::str_eq(v, "I32") {
            Ok(ModbusEntryDataType::I32)
        } else if crate::catalog::str_eq(v, "F32") {
            Ok(ModbusEntryDataType::F32)
        } else {
            Err(ModbusEntryError::InvalidDataType(value))
        }
    }
}

/// The Modbus function codes that the collector uses.
#[derive(Debug, Clone, Copy, PartialEq, Eq, Structural)]
pub enum ModbusEntryFunction {
    ReadCoil,
    ReadDiscreteInput,
    ReadHoldingRegister,
    ReadInputRegister,
    WriteSingleCoil,
    WriteSingleRegister,
    WriteMultipleCoils,
    WriteMultipleRegisters,
}

pub open spec fn function_of_code(code: u8) -> Option<ModbusEntryFunction> {
    if code == 0x1 {
        Some(ModbusEntryFunction::ReadCoil)
    } else if code == 0x2 {
        Some(ModbusEntryFunction::ReadDiscreteInput)
    } else if code == 0x3 {
        Some(ModbusEntryFunction::ReadHoldingRegister)
    } else if code == 0x4 {
        Some(ModbusEntryFunction::ReadInputRegister)
    } else if code == 0x5 {
        Some(ModbusEntryFunction::WriteSingleCoil)
    } else if code == 0x6 {
        Some(ModbusEntryFunction::WriteSingleRegister)
    } else if code == 0xF {
        Some(ModbusEntryFunction::WriteMultipleCoils)
    } else if code == 0x10 {
        Some(ModbusEntryFunction::WriteMultipleRegisters)
    } else {
        None
    }
}

impl ModbusEntryFunction {
    pub fn try_from(value: u8) -> (r: Result<ModbusEntryFunction, ModbusEntryError>)
        ensures
            match function_of_code(value) {
                Some(f) => r matches Ok(g) && g == f,
                None => r matches Err(ModbusEntryError::InvalidFunctionCode(c)) && c == value,
            },
    {
        match value {
            0x1 => Ok(ModbusEntryFunction::ReadCoil),
            0x2 => Ok(ModbusEntryFunction::ReadDiscreteInput),
            0x3 => Ok(ModbusEntryFunction::ReadHoldingRegister),
            0x4 => Ok(ModbusEntryFunction::ReadInputRegister),
            0x5 => Ok(ModbusEntryFunction::WriteSingleCoil),
            0x6 => Ok(ModbusEntryFunction::WriteSingleRegister),
            0xF => Ok(ModbusEntryFunction::WriteMultipleCoils),
            0x10 => Ok(ModbusEntryFunction::WriteMultipleRegisters),
            _ => Err(ModbusEntryError::InvalidFunctionCode(value)),
        }
    }
}

} // verus!
