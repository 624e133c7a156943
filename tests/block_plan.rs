use collector::block::{BlockRead, Blocks, BuildBlocksError, RawReading};
use collector::catalog::{ByteOrder, ModbusConfig, ModbusDataType, RegisterType};

fn cfg(register_type: RegisterType, register_address: u16, data_type: ModbusDataType) -> ModbusConfig {
    ModbusConfig {
        id: 1,
        name: "p".to_string(),
        data_type,
        unit: None,
        remarks: None,
        register_address,
        register_type,
        byte_order: None,
    }
}

#[test]
fn build_blocks_overlap_returns_error() {
    let a = cfg(RegisterType::HoldingRegisters, 10, ModbusDataType::U32);
    let b = cfg(RegisterType::HoldingRegisters, 11, ModbusDataType::U16);
    let err = Blocks::plan(&[a, b]).unwrap_err();
    match err {
        BuildBlocksError::Overlap { register_type, block_start, block_end, next_start } => {
            assert_eq!(register_type, RegisterType::HoldingRegisters);
            assert_eq!(block_start, 10);
            assert_eq!(block_end, 12);
            assert_eq!(next_start, 11);
        }
        other => panic!("unexpected error {:?}", other),
    }
}

#[test]
fn build_blocks_gap_splits_block() {
    let a = cfg(RegisterType::InputRegisters, 0, ModbusDataType::U16);
    let b = cfg(RegisterType::InputRegisters, 2, ModbusDataType::U16);
    let blocks = Blocks::plan(&[a, b]).unwrap();
    assert_eq!(blocks.0.len(), 2);
    assert_eq!(blocks.0[0].start, 0);
    assert_eq!(blocks.0[0].len, 1);
    assert_eq!(blocks.0[1].start, 2);
    assert_eq!(blocks.0[1].len, 1);
}

#[test]
fn build_blocks_splits_on_max_len() {
    let mut configs: Vec<ModbusConfig> = Vec::new();
    for addr in 0u16..=120u16 {
        configs.push(cfg(RegisterType::HoldingRegisters, addr, ModbusDataType::U16));
    }
    let blocks = Blocks::plan(&configs).unwrap();
    assert_eq!(blocks.0.len(), 2);
    assert_eq!(blocks.0[0].start, 0);
    assert_eq!(blocks.0[0].len, 120);
    assert_eq!(blocks.0[1].start, 120);
    assert_eq!(blocks.0[1].len, 1);
}

#[test]
fn block_coalescing_three_points() {
    let pts = [
        cfg(RegisterType::HoldingRegisters, 12, ModbusDataType::U32),
        cfg(RegisterType::HoldingRegisters, 10, ModbusDataType::U16),
        cfg(RegisterType::HoldingRegisters, 11, ModbusDataType::U16),
    ];
    let blocks = Blocks::plan(&pts).unwrap();
    assert_eq!(blocks.0.len(), 1);
    let b = &blocks.0[0];
    assert_eq!((b.start, b.len), (10, 4));
    let offsets: Vec<(usize, u16, u16)> = b.regions.iter().map(|r| (r.index, r.offset, r.width)).collect();
    assert_eq!(offsets, vec![(1, 0, 1), (2, 1, 1), (0, 2, 2)]);
}

#[test]
fn empty_catalog_plans_nothing() {
    let blocks = Blocks::plan(&[]).unwrap();
    assert!(blocks.0.is_empty());
}

#[test]
fn single_point_single_block() {
    let blocks = Blocks::plan(&[cfg(RegisterType::Coils, 0, ModbusDataType::Bool)]).unwrap();
    assert_eq!(blocks.0.len(), 1);
    assert_eq!((blocks.0[0].start, blocks.0[0].len), (0, 1));
}

#[test]
fn classes_planned_in_order_and_never_merged() {
    let pts = [
        cfg(RegisterType::InputRegisters, 0, ModbusDataType::U16),
        cfg(RegisterType::Coils, 1, ModbusDataType::Bool),
        cfg(RegisterType::HoldingRegisters, 0, ModbusDataType::U16),
        cfg(RegisterType::Coils, 0, ModbusDataType::Bool),
    ];
    let blocks = Blocks::plan(&pts).unwrap();
    let kinds: Vec<(RegisterType, u16, u16)> =
        blocks.0.iter().map(|b| (b.register_type, b.start, b.len)).collect();
    assert_eq!(
        kinds,
        vec![
            (RegisterType::Coils, 0, 2),
            (RegisterType::HoldingRegisters, 0, 1),
            (RegisterType::InputRegisters, 0, 1),
        ]
    );
}

#[test]
fn bit_class_limit_is_two_thousand() {
    let pts: Vec<ModbusConfig> =
        (0u16..2001).map(|a| cfg(RegisterType::Coils, a, ModbusDataType::Bool)).collect();
    let blocks = Blocks::plan(&pts).unwrap();
    assert_eq!(blocks.0.len(), 2);
    assert_eq!(blocks.0[0].len, 2000);
    assert_eq!((blocks.0[1].start, blocks.0[1].len), (2000, 1));
}

#[test]
fn points_at_top_of_address_space() {
    let fits = cfg(RegisterType::HoldingRegisters, 0xFFFF - 2, ModbusDataType::U32);
    let blocks = Blocks::plan(&[fits]).unwrap();
    assert_eq!((blocks.0[0].start, blocks.0[0].len), (0xFFFD, 2));
    let last = cfg(RegisterType::HoldingRegisters, 0xFFFF, ModbusDataType::U16);
    assert!(Blocks::plan(&[last]).is_ok());
}

#[test]
fn two_word_point_past_top_is_rejected() {
    let bad = cfg(RegisterType::HoldingRegisters, 0xFFFF, ModbusDataType::I32);
    let err = Blocks::plan(&[bad]).unwrap_err();
    assert_eq!(
        err,
        BuildBlocksError::AddressOverflow {
            register_type: RegisterType::HoldingRegisters,
            address: 0xFFFF,
            width: 2
        }
    );
}

#[test]
fn overlap_reports_block_start_of_run() {
    let pts = [
        cfg(RegisterType::InputRegisters, 5, ModbusDataType::U16),
        cfg(RegisterType::InputRegisters, 6, ModbusDataType::U32),
        cfg(RegisterType::InputRegisters, 7, ModbusDataType::U16),
    ];
    let err = Blocks::plan(&pts).unwrap_err();
    assert_eq!(
        err,
        BuildBlocksError::Overlap {
            register_type: RegisterType::InputRegisters,
            block_start: 5,
            block_end: 8,
            next_start: 7
        }
    );
}

#[test]
fn equal_addresses_overlap() {
    let pts = [
        cfg(RegisterType::Coils, 3, ModbusDataType::Bool),
        cfg(RegisterType::Coils, 3, ModbusDataType::Bool),
    ];
    let err = Blocks::plan(&pts).unwrap_err();
    assert_eq!(
        err,
        BuildBlocksError::Overlap {
            register_type: RegisterType::Coils,
            block_start: 3,
            block_end: 4,
            next_start: 3
        }
    );
}

#[test]
fn parse_decodes_each_region() {
    let mut signed = cfg(RegisterType::HoldingRegisters, 1, ModbusDataType::I16);
    signed.byte_order = Some(ByteOrder::BA);
    let mut wide = cfg(RegisterType::HoldingRegisters, 2, ModbusDataType::U32);
    wide.byte_order = Some(ByteOrder::CDAB);
    let pts = [
        cfg(RegisterType::Coils, 0, ModbusDataType::Bool),
        cfg(RegisterType::Coils, 1, ModbusDataType::Bool),
        signed,
        wide,
    ];
    let blocks = Blocks::plan(&pts).unwrap();
    let reads = vec![
        BlockRead::Coils(vec![true, false]),
        BlockRead::HoldingRegisters(vec![0xFFFF, 0x0001, 0x0002]),
    ];
    let out = blocks.parse(&pts, &reads);
    assert_eq!(
        out,
        vec![
            RawReading { index: 0, raw: 1 },
            RawReading { index: 1, raw: 0 },
            RawReading { index: 2, raw: -1 },
            RawReading { index: 3, raw: 0x0002_0001 },
        ]
    );
}

#[test]
fn parse_skips_short_or_mismatched_reads() {
    let pts = [
        cfg(RegisterType::HoldingRegisters, 0, ModbusDataType::U32),
        cfg(RegisterType::InputRegisters, 0, ModbusDataType::U16),
    ];
    let blocks = Blocks::plan(&pts).unwrap();
    let reads = vec![
        BlockRead::HoldingRegisters(vec![7]),
        BlockRead::Coils(vec![true]),
    ];
    assert!(blocks.parse(&pts, &reads).is_empty());
}

#[test]
fn overlap_is_reported_before_address_overflow() {
    let pts = [
        cfg(RegisterType::InputRegisters, 0xFFFF, ModbusDataType::U32),
        cfg(RegisterType::HoldingRegisters, 10, ModbusDataType::U32),
        cfg(RegisterType::HoldingRegisters, 11, ModbusDataType::U16),
    ];
    let err = Blocks::plan(&pts).unwrap_err();
    assert_eq!(
        err,
        BuildBlocksError::Overlap {
            register_type: RegisterType::HoldingRegisters,
            block_start: 10,
            block_end: 12,
            next_start: 11
        }
    );
}
