use collector::catalog::{
    find_point, range_end, register_type_key, ByteOrder, ByteOrderError, CatalogField, CatalogRow,
    CatalogRowError, ModbusConfig, ModbusDataType, ModbusDataTypeError, RegisterType,
    RegisterTypeError,
};
use collector::config::{
    ComType, DeviceConfig, ModbusRtuConfError, ModbusRtuConfig, ModbusTcpConfError, ModbusTcpConfig,
};
use collector::device::{
    stop_plan, Device, DeviceError, ModbusDevParts, Protocol, ProtocolConfigs, StopPlan,
};
use collector::lifecycle::LifecycleState;

fn empty_config() -> DeviceConfig {
    DeviceConfig {
        device_type: None,
        com_type: None,
        register_file: None,
        interval: None,
        timeout: None,
        ip: None,
        port: None,
        slave: None,
        serial_tty: None,
        baud_rate: None,
        data_bits: None,
        parity: None,
        stop_bits: None,
        interface: None,
        desc: None,
    }
}

fn tcp_config(ip: &str) -> DeviceConfig {
    DeviceConfig {
        com_type: Some(ComType::ModbusTCP),
        interval: Some(1000),
        timeout: Some(3000),
        ip: Some(ip.to_string()),
        port: Some(502),
        slave: Some(1),
        ..empty_config()
    }
}

fn row() -> CatalogRow {
    CatalogRow {
        cells: 10,
        id: Some(7),
        name: Some("SOC".to_string()),
        data_type: Some("U16".to_string()),
        unit: Some("%".to_string()),
        remarks: None,
        register_address: Some(100),
        register_type: Some("HoldingRegisters".to_string()),
        byte_order: Some("BA".to_string()),
        has_scale: true,
        has_offset: true,
    }
}

#[test]
fn names_parse() {
    assert_eq!(ModbusDataType::try_from("bool"), Ok(ModbusDataType::Bool));
    assert_eq!(ModbusDataType::try_from("I32"), Ok(ModbusDataType::I32));
    assert_eq!(ModbusDataType::try_from("F32"), Err(ModbusDataTypeError::InvalidDataType));
    assert_eq!(RegisterType::try_from("Coils"), Ok(RegisterType::Coils));
    assert_eq!(RegisterType::try_from("coils"), Err(RegisterTypeError::InvalidRegisterType));
    assert_eq!(ByteOrder::try_from(Some("CDAB")), Ok(ByteOrder::CDAB));
    assert_eq!(ByteOrder::try_from(None), Err(ByteOrderError::InvalidByteOrder));
    assert_eq!(ModbusDataType::U32.quantity(), 2);
    assert_eq!(ModbusDataType::I16.quantity(), 1);
    assert_eq!(register_type_key(RegisterType::InputRegisters), 3);
    assert_eq!(range_end(5, 0), None);
    assert_eq!(range_end(5, 3), Some(8));
    assert_eq!(range_end(usize::MAX, 1), None);
}

#[test]
fn catalog_row_builds() {
    let c = ModbusConfig::build(row()).unwrap();
    assert_eq!(c.id, 7);
    assert_eq!(c.name, "SOC");
    assert_eq!(c.data_type, ModbusDataType::U16);
    assert_eq!(c.register_type, RegisterType::HoldingRegisters);
    assert_eq!(c.byte_order, Some(ByteOrder::BA));
    assert_eq!(c.serial_num(), (3u64 << 24) | 7);
    let odd = CatalogRow { byte_order: Some("XY".to_string()), ..row() };
    assert_eq!(ModbusConfig::build(odd).unwrap().byte_order, None);
}

#[test]
fn catalog_row_rejections() {
    let err = |r: CatalogRow| ModbusConfig::build(r).unwrap_err();
    assert_eq!(err(CatalogRow { cells: 9, ..row() }), CatalogRowError::WrongLength);
    assert_eq!(err(CatalogRow { id: None, ..row() }), CatalogRowError::MissingField(CatalogField::Id));
    assert_eq!(err(CatalogRow { id: Some(1 << 24), ..row() }), CatalogRowError::IdOutOfRange);
    assert!(ModbusConfig::build(CatalogRow { id: Some((1 << 24) - 1), ..row() }).is_ok());
    assert_eq!(err(CatalogRow { name: None, ..row() }), CatalogRowError::MissingField(CatalogField::Name));
    assert_eq!(err(CatalogRow { data_type: Some("X".to_string()), ..row() }), CatalogRowError::InvalidDataType);
    assert_eq!(
        err(CatalogRow { register_address: None, ..row() }),
        CatalogRowError::MissingField(CatalogField::RegisterAddress)
    );
    assert_eq!(
        err(CatalogRow { register_type: Some("Holding".to_string()), ..row() }),
        CatalogRowError::InvalidRegisterType
    );
    assert_eq!(err(CatalogRow { has_scale: false, ..row() }), CatalogRowError::MissingField(CatalogField::Scale));
    assert_eq!(err(CatalogRow { has_offset: false, ..row() }), CatalogRowError::MissingField(CatalogField::Offset));
}

#[test]
fn tcp_settings() {
    let c = ModbusTcpConfig::try_from(tcp_config("192.168.1.10")).unwrap();
    assert_eq!((c.slave, c.ip.as_str(), c.port, c.interval, c.timeout), (1, "192.168.1.10", 502, 1000, 3000));
    assert!(ModbusTcpConfig::try_from(tcp_config("::1")).is_ok());
    match ModbusTcpConfig::try_from(tcp_config("999.1.1.1")) {
        Err(ModbusTcpConfError::InvalidIp(ip)) => assert_eq!(ip, "999.1.1.1"),
        _ => panic!("expected an invalid address"),
    }
    match ModbusTcpConfig::try_from(DeviceConfig { port: None, ..tcp_config("10.0.0.1") }) {
        Err(ModbusTcpConfError::ValueNotNone(name)) => assert_eq!(name, "port"),
        _ => panic!("expected a missing port"),
    }
}

#[test]
fn rtu_settings() {
    let full = DeviceConfig {
        com_type: Some(ComType::ModbusRTU),
        slave: Some(2),
        serial_tty: Some("/dev/ttyS1".to_string()),
        baud_rate: Some(9600),
        data_bits: Some(8),
        parity: Some("N".to_string()),
        stop_bits: Some(1),
        interval: Some(500),
        timeout: Some(1000),
        ..empty_config()
    };
    let c = ModbusRtuConfig::try_from(full.clone()).unwrap();
    assert_eq!((c.baudrate, c.data_bits, c.stop_bits), (9600, 8, 1));
    match ModbusRtuConfig::try_from(DeviceConfig { parity: None, ..full }) {
        Err(ModbusRtuConfError::ValueNotNone(name)) => assert_eq!(name, "parity"),
        _ => panic!("expected a missing parity"),
    }
}

#[test]
fn device_assembly() {
    let dev = |id: Option<&str>, cfg: DeviceConfig, cat: Option<ProtocolConfigs>| Device {
        id: id.map(|s| s.to_string()),
        desc: None,
        config: cfg,
        protocol_configs: cat,
    };
    let ok = ModbusDevParts::from_device(dev(Some("BCU"), tcp_config("127.0.0.1"), Some(ProtocolConfigs::Modbus(vec![]))))
        .unwrap();
    assert_eq!(ok.id, "BCU");
    assert!(matches!(ok.protocol, Protocol::Tcp(_)));
    assert_eq!(ok.protocol.interval_ms(), 1000);
    assert_eq!(ok.protocol.timeout_ms(), 3000);
    assert!(matches!(
        ModbusDevParts::from_device(dev(None, tcp_config("127.0.0.1"), None)),
        Err(DeviceError::InvalidId)
    ));
    assert!(matches!(
        ModbusDevParts::from_device(dev(Some("A"), empty_config(), None)),
        Err(DeviceError::InvalidComType)
    ));
    match ModbusDevParts::from_device(dev(Some("A"), tcp_config("127.0.0.1"), Some(ProtocolConfigs::Empty))) {
        Err(DeviceError::NotFoundConfigs(id)) => assert_eq!(id, "A"),
        _ => panic!("expected a missing catalog"),
    }
    let can = DeviceConfig { com_type: Some(ComType::CAN), ..empty_config() };
    assert!(matches!(
        ModbusDevParts::from_device(dev(Some("A"), can, Some(ProtocolConfigs::Modbus(vec![])))),
        Err(DeviceError::UnSupportedComType)
    ));
    assert!(matches!(
        ModbusDevParts::from_device(dev(Some("A"), tcp_config("x"), Some(ProtocolConfigs::Modbus(vec![])))),
        Err(DeviceError::ModbusTcpConfigError(ModbusTcpConfError::InvalidIp(_)))
    ));
    assert!(ComType::ModbusRTU.is_modbus());
    assert!(!ComType::IEC104.is_modbus());
}

#[test]
fn stop_plans() {
    assert_eq!(stop_plan(LifecycleState::Stopped), StopPlan::AlreadyStopped);
    assert_eq!(stop_plan(LifecycleState::New), StopPlan::StopAtOnce);
    assert_eq!(stop_plan(LifecycleState::Ready), StopPlan::StopAtOnce);
    assert_eq!(stop_plan(LifecycleState::Stopping), StopPlan::TearDown { mark_stopping: false });
    assert_eq!(stop_plan(LifecycleState::Running), StopPlan::TearDown { mark_stopping: true });
}

#[test]
fn points_are_found_by_name() {
    let a = ModbusConfig::build(row()).unwrap();
    let b = ModbusConfig::build(CatalogRow { name: Some("SOH".to_string()), id: Some(8), ..row() }).unwrap();
    let c = ModbusConfig::build(CatalogRow { id: Some(9), ..row() }).unwrap();
    let cfgs = [a, b, c];
    assert_eq!(find_point(&cfgs, "SOH"), Some(1));
    assert_eq!(find_point(&cfgs, "SOC"), Some(2));
    assert_eq!(find_point(&cfgs, "SOX"), None);
}
