use collector::catalog::{ByteOrder, ModbusDataType};
use collector::codec::{
    decode_raw, encode_registers, encode_u32, swap_bytes16, u16_with_order, u32_with_order,
    ModbusEntryDataType, ModbusEntryError, ModbusEntryFunction,
};

#[test]
fn byte_swap_on_ba_only() {
    assert_eq!(swap_bytes16(0x1234), 0x3412);
    assert_eq!(u16_with_order(0x1234, Some(ByteOrder::BA)), 0x3412);
    assert_eq!(u16_with_order(0x1234, Some(ByteOrder::AB)), 0x1234);
    assert_eq!(u16_with_order(0x1234, None), 0x1234);
}

#[test]
fn word_order_cdab_puts_second_word_high() {
    assert_eq!(u32_with_order(&[0x1234, 0x5678], Some(ByteOrder::CDAB)), 0x5678_1234);
    assert_eq!(u32_with_order(&[0x1234, 0x5678], Some(ByteOrder::ABCD)), 0x1234_5678);
    assert_eq!(u32_with_order(&[0x1234], None), 0x1234_0000);
    assert_eq!(encode_u32(0x1234_5678, None), [0x1234, 0x5678]);
    assert_eq!(encode_u32(0x1234_5678, Some(ByteOrder::CDAB)), [0x5678, 0x1234]);
}

#[test]
fn decode_signed_and_boolean() {
    assert_eq!(decode_raw(ModbusDataType::I16, None, &[0xFFFE]), -2);
    assert_eq!(decode_raw(ModbusDataType::I16, Some(ByteOrder::BA), &[0x00FF]), -256);
    assert_eq!(decode_raw(ModbusDataType::U16, Some(ByteOrder::BA), &[0x00FF]), 0xFF00);
    assert_eq!(decode_raw(ModbusDataType::I32, None, &[0xFFFF, 0xFFFF]), -1);
    assert_eq!(decode_raw(ModbusDataType::U32, None, &[0x0001, 0x0000]), 65536);
    assert_eq!(decode_raw(ModbusDataType::Bool, None, &[5]), 1);
    assert_eq!(decode_raw(ModbusDataType::Bool, None, &[0]), 0);
}

#[test]
fn encode_checks_range() {
    assert_eq!(encode_registers(ModbusDataType::U16, None, 65535), Some(vec![0xFFFF]));
    assert_eq!(encode_registers(ModbusDataType::U16, None, 65536), None);
    assert_eq!(encode_registers(ModbusDataType::U16, None, -1), None);
    assert_eq!(encode_registers(ModbusDataType::I16, None, -32768), Some(vec![0x8000]));
    assert_eq!(encode_registers(ModbusDataType::I16, None, 32768), None);
    assert_eq!(encode_registers(ModbusDataType::I16, Some(ByteOrder::BA), -2), Some(vec![0xFEFF]));
    assert_eq!(encode_registers(ModbusDataType::U32, None, 0x1_0000_0000), None);
    assert_eq!(encode_registers(ModbusDataType::I32, None, -1), Some(vec![0xFFFF, 0xFFFF]));
    assert_eq!(
        encode_registers(ModbusDataType::I32, Some(ByteOrder::CDAB), 0x0001_0002),
        Some(vec![0x0002, 0x0001])
    );
    assert_eq!(encode_registers(ModbusDataType::I32, None, -0x8000_0001), None);
    assert_eq!(encode_registers(ModbusDataType::Bool, None, 9), Some(vec![1]));
}

#[test]
fn encode_then_decode_round_trips() {
    let cases: [(ModbusDataType, i64); 5] = [
        (ModbusDataType::U16, 4321),
        (ModbusDataType::I16, -4321),
        (ModbusDataType::U32, 4_000_000_000),
        (ModbusDataType::I32, -2_000_000_000),
        (ModbusDataType::Bool, 1),
    ];
    for order in [None, Some(ByteOrder::AB), Some(ByteOrder::BA), Some(ByteOrder::ABCD), Some(ByteOrder::CDAB)] {
        for (dt, raw) in cases {
            let words = encode_registers(dt, order, raw).unwrap();
            assert_eq!(decode_raw(dt, order, &words), raw);
        }
    }
}

#[test]
fn entry_kinds_parse() {
    assert_eq!(ModbusEntryDataType::try_from("F32".to_string()).unwrap(), ModbusEntryDataType::F32);
    match ModbusEntryDataType::try_from("F64".to_string()) {
        Err(ModbusEntryError::InvalidDataType(s)) => assert_eq!(s, "F64"),
        other => panic!("unexpected {:?}", other),
    }
    assert_eq!(ModbusEntryFunction::try_from(0x10).unwrap(), ModbusEntryFunction::WriteMultipleRegisters);
    assert_eq!(ModbusEntryFunction::try_from(0x0F).unwrap(), ModbusEntryFunction::WriteMultipleCoils);
    match ModbusEntryFunction::try_from(0x07) {
        Err(ModbusEntryError::InvalidFunctionCode(c)) => assert_eq!(c, 7),
        other => panic!("unexpected {:?}", other),
    }
}
