//! Device assembly and the façade's lifecycle decisions.

use vstd::prelude::*;
use crate::catalog::ModbusConfig;
use crate::center::DataCenterError;
use crate::config::{
    ComType, DeviceConfig, ModbusRtuConfError, ModbusRtuConfig, ModbusTcpConfError,
    ModbusTcpConfig, is_ip_address, rtu_error, rtu_missing, rtu_settings, tcp_error, tcp_missing,
    tcp_settings,
};
use crate::lifecycle::LifecycleState;

verus! {

/// Point catalog of a device, by protocol family.
#[derive(Debug, Clone)]
pub enum ProtocolConfigs {
    Modbus(Vec<ModbusConfig>),
    /// The device's catalog could not be loaded.
    Empty,
}

/// One configured device.
#[derive(Debug, Clone)]
pub struct Device {
    pub id: Option<String>,
    pub desc: Option<String>,
    pub config: DeviceConfig,
    pub protocol_configs: Option<ProtocolConfigs>,
}

/// Transport settings of a Modbus device.
#[derive(Debug, Clone)]
pub enum Protocol {
    Tcp(ModbusTcpConfig),
    Rtu(ModbusRtuConfig),
}

impl Protocol {
    pub open spec fn interval_spec(&self) -> u64 {
        match self {
            Protocol::Tcp(c) => c.interval,
            Protocol::Rtu(c) => c.interval,
        }
    }

    pub open spec fn timeout_spec(&self) -> u64 {
        match self {
            Protocol::Tcp(c) => c.timeout,
            Protocol::Rtu(c) => c.timeout,
        }
    }

    /// Poll period in milliseconds.
    pub fn interval_ms(&self) -> (r: u64)
        ensures
            r == self.interval_spec(),
    {
        match self {
            Protocol::Tcp(c) => c.interval,
            Protocol::Rtu(c) => c.interval,
        }
    }

    /// Bound on connecting and on each bus operation, in milliseconds.
    pub fn timeout_ms(&self) -> (r: u64)
        ensures
            r == self.timeout_spec(),
    {
        match self {
            Protocol::Tcp(c) => c.timeout,
            Protocol::Rtu(c) => c.timeout,
        }
    }
}

#[derive(Debug, Clone)]
pub enum DeviceError {
    InvalidId,
    InvalidComType,
    UnSupportedComType,
    ModbusTcpConfigError(ModbusTcpConfError),
    ModbusRtuConfigError(ModbusRtuConfError),
    /// The device with this id has no point catalog.
    NotFoundConfigs(String),
    DCenterError(DataCenterError),
}

/// What a Modbus device is built from: its id, transport and catalog.
#[derive(Debug, Clone)]
pub struct ModbusDevParts {
    pub id: String,
    pub protocol: Protocol,
    pub configs: Vec<ModbusConfig>,
}

impl ComType {
    /// Modbus devices are built; the other types are reserved.
    pub open spec fn is_modbus_spec(self) -> bool {
        self == ComType::ModbusTCP || self == ComType::ModbusRTU
    }

    pub fn is_modbus(&self) -> (r: bool)
        ensures
            r == self.is_modbus_spec(),
    {
        match self {
            ComType::ModbusTCP | ComType::ModbusRTU => true,
            _ => false,
        }
    }
}

pub open spec fn has_modbus_catalog(dev: Device) -> bool {
    match dev.protocol_configs {
        Some(ProtocolConfigs::Modbus(_)) => true,
        _ => false,
    }
}

/// The point catalog of a device that has a Modbus one.
pub open spec fn catalog_of(dev: Device) -> Seq<ModbusConfig> {
    match dev.protocol_configs {
        Some(ProtocolConfigs::Modbus(c)) => c@,
        _ => Seq::empty(),
    }
}

impl ModbusDevParts {
    /// Checks a configured device in order: its id, its communication type,
    /// its catalog, then the transport settings of its type.
    pub fn from_device(dev: Device) -> (r: Result<ModbusDevParts, DeviceError>)
        ensures
            dev.id is None ==> r matches Err(DeviceError::InvalidId),
            dev.id is Some && dev.config.com_type is None ==> r matches Err(
                DeviceError::InvalidComType,
            ),
            dev.id is Some && dev.config.com_type is Some && !has_modbus_catalog(dev) ==> (r matches Err(
                DeviceError::NotFoundConfigs(i),
            ) && i@ == dev.id->Some_0@),
            dev.id is Some && dev.config.com_type is Some && has_modbus_catalog(dev) ==> match dev.config.com_type->Some_0 {
                ComType::ModbusTCP => match r {
                    Ok(p) => p.id@ == dev.id->Some_0@ && p.configs@ == catalog_of(dev) && (
                    p.protocol matches Protocol::Tcp(c) && tcp_missing(dev.config) is None
                        && is_ip_address(dev.config.ip->Some_0@) && tcp_settings(dev.config, c)),
                    Err(DeviceError::ModbusTcpConfigError(e)) => tcp_error(dev.config, e),
                    Err(_) => false,
                },
                ComType::ModbusRTU => match r {
                    Ok(p) => p.id@ == dev.id->Some_0@ && p.configs@ == catalog_of(dev) && (
                    p.protocol matches Protocol::Rtu(c) && rtu_missing(dev.config) is None
                        && rtu_settings(dev.config, c)),
                    Err(DeviceError::ModbusRtuConfigError(e)) => rtu_error(dev.config, e),
                    Err(_) => false,
                },
                _ => r matches Err(DeviceError::UnSupportedComType),
            },
    {
        let id = match dev.id {
            Some(v) => v,
            None => return Err(DeviceError::InvalidId),
        };
        let com_type = match dev.config.com_type {
            Some(v) => v,
            None => return Err(DeviceError::InvalidComType),
        };
        let configs = match dev.protocol_configs {
            Some(ProtocolConfigs::Modbus(c)) => c,
            _ => return Err(DeviceError::NotFoundConfigs(id)),
        };
        let protocol = match com_type {
            ComType::ModbusTCP => match ModbusTcpConfig::try_from(dev.config) {
                Ok(c) => Protocol::Tcp(c),
                Err(e) => return Err(DeviceError::ModbusTcpConfigError(e)),
            },
            ComType::ModbusRTU => match ModbusRtuConfig::try_from(dev.config) {
                Ok(c) => Protocol::Rtu(c),
                Err(e) => return Err(DeviceError::ModbusRtuConfigError(e)),
            },
            _ => return Err(DeviceError::UnSupportedComType),
        };
        Ok(ModbusDevParts { id, protocol, configs })
    }
}

/// Milliseconds that a stopping device's task gets before it is aborted.
pub const STOP_GRACE_MS: u64 = 3000;

/// How `stop` proceeds from the state it finds.
#[derive(Debug, Clone, Copy, PartialEq, Eq, Structural)]
pub enum StopPlan {
    /// Nothing to do.
    AlreadyStopped,
    /// No task runs: store `Stopped` and detach from the hub.
    StopAtOnce,
    /// Detach, then wait for the task up to the grace period and abort it
    /// after; first move the state to `Stopping` when `mark_stopping`.
    TearDown { mark_stopping: bool },
}

pub open spec fn stop_plan_spec(cur: LifecycleState) -> StopPlan {
    match cur {
        LifecycleState::Stopped => StopPlan::AlreadyStopped,
        LifecycleState::New | LifecycleState::Ready => StopPlan::StopAtOnce,
        LifecycleState::Stopping => StopPlan::TearDown { mark_stopping: false },
        _ => StopPlan::TearDown { mark_stopping: true },
    }
}

pub fn stop_plan(cur: LifecycleState) -> (r: StopPlan)
    ensures
        r == stop_plan_spec(cur),
{
    match cur {
        LifecycleState::Stopped => StopPlan::AlreadyStopped,
        LifecycleState::New | LifecycleState::Ready => StopPlan::StopAtOnce,
        LifecycleState::Stopping => StopPlan::TearDown { mark_stopping: false },
        _ => StopPlan::TearDown { mark_stopping: true },
    }
}

/// A device type that is not built yet.
pub struct CanDev {}

} // verus!
