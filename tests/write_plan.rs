use collector::catalog::{ByteOrder, ModbusDataType, RegisterType};
use collector::write_plan::{
    merge_bool_blocks, merge_u16_blocks, PointWrite, WriteOp, WritePlan, WriteValue,
};

fn w(rt: RegisterType, addr: u16, dt: ModbusDataType, value: WriteValue) -> PointWrite {
    PointWrite { register_type: rt, register_address: addr, data_type: dt, byte_order: None, value }
}

#[test]
fn merges_consecutive_addresses() {
    let runs = merge_u16_blocks(&[(1, 10), (2, 20), (4, 40), (5, 50), (6, 60), (9, 90)]);
    assert_eq!(runs, vec![(1, vec![10, 20]), (4, vec![40, 50, 60]), (9, vec![90])]);
    assert_eq!(merge_bool_blocks(&[]), vec![]);
    assert_eq!(merge_bool_blocks(&[(0xFFFE, true), (0xFFFF, false)]), vec![(0xFFFE, vec![true, false])]);
}

#[test]
fn plan_splits_classes_and_drops_read_only() {
    let writes = [
        w(RegisterType::Coils, 3, ModbusDataType::Bool, WriteValue::Flag(true)),
        w(RegisterType::Coils, 4, ModbusDataType::Bool, WriteValue::Raw(0)),
        w(RegisterType::HoldingRegisters, 10, ModbusDataType::U32, WriteValue::Raw(0x0001_0002)),
        w(RegisterType::HoldingRegisters, 12, ModbusDataType::U16, WriteValue::Raw(7)),
        w(RegisterType::HoldingRegisters, 20, ModbusDataType::U16, WriteValue::Raw(70_000)),
        w(RegisterType::InputRegisters, 30, ModbusDataType::U16, WriteValue::Raw(1)),
        w(RegisterType::DiscreteInputs, 31, ModbusDataType::Bool, WriteValue::Flag(true)),
    ];
    let plan = WritePlan::build(&writes);
    assert_eq!(plan.coils, vec![(3, vec![true, false])]);
    assert_eq!(plan.holding, vec![(10, vec![0x0001, 0x0002, 7])]);
}

#[test]
fn last_write_to_an_address_wins() {
    let writes = [
        w(RegisterType::HoldingRegisters, 5, ModbusDataType::I16, WriteValue::Raw(-1)),
        w(RegisterType::HoldingRegisters, 5, ModbusDataType::U16, WriteValue::Raw(2)),
        w(RegisterType::Coils, 1, ModbusDataType::Bool, WriteValue::Flag(true)),
        w(RegisterType::Coils, 1, ModbusDataType::Bool, WriteValue::Flag(false)),
    ];
    let plan = WritePlan::build(&writes);
    assert_eq!(plan.holding, vec![(5, vec![2])]);
    assert_eq!(plan.coils, vec![(1, vec![false])]);
}

#[test]
fn byte_order_applies_to_written_words() {
    let mut p = w(RegisterType::HoldingRegisters, 0, ModbusDataType::U16, WriteValue::Raw(0x1234));
    p.byte_order = Some(ByteOrder::BA);
    let plan = WritePlan::build(&[p]);
    assert_eq!(plan.holding, vec![(0, vec![0x3412])]);
}

#[test]
fn operations_pick_single_or_multiple() {
    let writes = [
        w(RegisterType::Coils, 0, ModbusDataType::Bool, WriteValue::Flag(true)),
        w(RegisterType::Coils, 5, ModbusDataType::Bool, WriteValue::Flag(true)),
        w(RegisterType::Coils, 6, ModbusDataType::Bool, WriteValue::Flag(false)),
        w(RegisterType::HoldingRegisters, 9, ModbusDataType::U16, WriteValue::Raw(4)),
        w(RegisterType::HoldingRegisters, 100, ModbusDataType::I32, WriteValue::Raw(-2)),
    ];
    let ops = WritePlan::build(&writes).operations();
    let shown: Vec<String> = ops.iter().map(|o| format!("{:?}", o)).collect();
    assert_eq!(shown.len(), 4);
    assert!(matches!(ops[0], WriteOp::SingleCoil(0, true)));
    assert!(matches!(&ops[1], WriteOp::MultipleCoils(5, v) if *v == vec![true, false]));
    assert!(matches!(ops[2], WriteOp::SingleRegister(9, 4)));
    assert!(matches!(&ops[3], WriteOp::MultipleRegisters(100, v) if *v == vec![0xFFFF, 0xFFFE]));
}
