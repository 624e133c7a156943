//! Device configuration: communication types and the validated settings of
//! Modbus TCP and RTU devices.

use vstd::prelude::*;
use crate::catalog::ModbusConfig;

verus! {

/// Communication type of a device.
#[derive(Debug, Clone, Copy, PartialEq, Eq, Structural)]
pub enum ComType {
    ModbusTCP,
    ModbusRTU,
    CAN,
    IEC104,
    IEC61850,
}

/// Settings of one device as configured; every field is optional.
#[derive(Debug, Clone)]
pub struct DeviceConfig {
    pub device_type: Option<String>,
    pub com_type: Option<ComType>,
    pub register_file: Option<String>,
    pub interval: Option<u64>,
    pub timeout: Option<u64>,
    pub ip: Option<String>,
    pub port: Option<u16>,
    pub slave: Option<u8>,
    pub serial_tty: Option<String>,
    pub baud_rate: Option<u32>,
    pub data_bits: Option<u8>,
    pub parity: Option<String>,
    pub stop_bits: Option<u8>,
    pub interface: Option<String>,
    pub desc: Option<String>,
}

/// Whether the text is an IPv4 or IPv6 address in the standard notation.
pub uninterp spec fn is_ip_address(s: Seq<char>) -> bool;

/// Relies on `str::parse::<core::net::IpAddr>`: succeeds exactly on the
/// address notations that std accepts, a function of the text alone.
#[verifier::external_body]
fn parses_as_ip(s: &str) -> (r: bool)
    ensures
        r == is_ip_address(s@),
{
    s.parse::<core::net::IpAddr>().is_ok()
}

#[derive(Debug, Clone)]
pub enum ModbusTcpConfError {
    /// The named setting is missing.
    ValueNotNone(String),
    /// The IP address does not parse.
    InvalidIp(String),
}

/// Validated settings of a Modbus TCP device; times in milliseconds.
#[derive(Debug, Clone)]
pub struct ModbusTcpConfig {
    pub slave: u8,
    pub ip: String,
    pub port: u16,
    pub interval: u64,
    pub timeout: u64,
}

/// Name of the first setting that a TCP device lacks.
pub open spec fn tcp_missing(c: DeviceConfig) -> Option<Seq<char>> {
    if c.slave is None {
        Some("slave"@)
    } else if c.ip is None {
        Some("ip"@)
    } else if c.port is None {
        Some("port"@)
    } else if c.interval is None {
        Some("interval"@)
    } else if c.timeout is None {
        Some("timeout"@)
    } else {
        None
    }
}

/// `c` holds the TCP settings given in `value`.
pub open spec fn tcp_settings(value: DeviceConfig, c: ModbusTcpConfig) -> bool {
    &&& c.slave == value.slave->Some_0
    &&& c.ip@ == value.ip->Some_0@
    &&& c.port == value.port->Some_0
    &&& c.interval == value.interval->Some_0
    &&& c.timeout == value.timeout->Some_0
}

/// `e` is the reason for which `value` is refused as a TCP device: its first
/// missing setting, else its IP address.
pub open spec fn tcp_error(value: DeviceConfig, e: ModbusTcpConfError) -> bool {
    match e {
        ModbusTcpConfError::ValueNotNone(name) => tcp_missing(value) == Some(name@),
        ModbusTcpConfError::InvalidIp(ip) => tcp_missing(value) is None && !is_ip_address(
            value.ip->Some_0@,
        ) && ip@ == value.ip->Some_0@,
    }
}

impl ModbusTcpConfig {
    /// Takes the settings of a TCP device: the first missing setting is
    /// named, then the IP address is checked.
    pub fn try_from(value: DeviceConfig) -> (r: Result<ModbusTcpConfig, ModbusTcpConfError>)
        ensures
            match r {
                Ok(c) => tcp_missing(value) is None && is_ip_address(value.ip->Some_0@)
                    && tcp_settings(value, c),
                Err(e) => tcp_error(value, e),
            },
    {
        let slave = match value.slave {
            Some(v) => v,
            None => return Err(ModbusTcpConfError::ValueNotNone("slave".to_owned())),
        };
        let ip = match value.ip {
            Some(v) => v,
            None => return Err(ModbusTcpConfError::ValueNotNone("ip".to_owned())),
        };
        let port = match value.port {
            Some(v) => v,
            None => return Err(ModbusTcpConfError::ValueNotNone("port".to_owned())),
        };
        let interval = match value.interval {
            Some(v) => v,
            None => return Err(ModbusTcpConfError::ValueNotNone("interval".to_owned())),
        };
        let timeout = match value.timeout {
            Some(v) => v,
            None => return Err(ModbusTcpConfError::ValueNotNone("timeout".to_owned())),
        };
        if !parses_as_ip(ip.as_str()) {
            return Err(ModbusTcpConfError::InvalidIp(ip));
        }
        Ok(ModbusTcpConfig { slave, ip, port, interval, timeout })
    }
}

#[derive(Debug, Clone)]
pub enum ModbusRtuConfError {
    /// The named setting is missing.
    ValueNotNone(String),
}

/// Validated settings of a Modbus RTU device; times in milliseconds.
#[derive(Debug, Clone)]
pub struct ModbusRtuConfig {
    pub slave: u8,
    pub serial_tty: String,
    pub baudrate: u32,
    pub data_bits: u8,
    pub parity: String,
    pub stop_bits: u8,
    pub interval: u64,
    pub timeout: u64,
}

/// Name of the first setting that an RTU device lacks.
pub open spec fn rtu_missing(c: DeviceConfig) -> Option<Seq<char>> {
    if c.slave is None {
        Some("slave"@)
    } else if c.serial_tty is None {
        Some("serial_tty"@)
    } else if c.baud_rate is None {
        Some("baud_rate"@)
    } else if c.data_bits is None {
        Some("data_bits"@)
    } else if c.parity is None {
        Some("parity"@)
    } else if c.stop_bits is None {
        Some("stop_bits"@)
    } else if c.interval is None {
        Some("interval"@)
    } else if c.timeout is None {
        Some("timeout"@)
    } else {
        None
    }
}

/// `c` holds the RTU settings given in `value`.
pub open spec fn rtu_settings(value: DeviceConfig, c: ModbusRtuConfig) -> bool {
    &&& c.slave == value.slave->Some_0
    &&& c.serial_tty@ == value.serial_tty->Some_0@
    &&& c.baudrate == value.baud_rate->Some_0
    &&& c.data_bits == value.data_bits->Some_0
    &&& c.parity@ == value.parity->Some_0@
    &&& c.stop_bits == value.stop_bits->Some_0
    &&& c.interval == value.interval->Some_0
    &&& c.timeout == value.timeout->Some_0
}

/// `e` names the first setting that `value` lacks as an RTU device.
pub open spec fn rtu_error(value: DeviceConfig, e: ModbusRtuConfError) -> bool {
    match e {
        ModbusRtuConfError::ValueNotNone(name) => rtu_missing(value) == Some(name@),
    }
}

impl ModbusRtuConfig {
    /// Takes the settings of an RTU device; the first missing setting is
    /// named.
    pub fn try_from(value: DeviceConfig) -> (r: Result<ModbusRtuConfig, ModbusRtuConfError>)
        ensures
            match r {
                Ok(c) => rtu_missing(value) is None && rtu_settings(value, c),
                Err(e) => rtu_error(value, e),
            },
    {
        let slave = match value.slave {
            Some(v) => v,
            None => return Err(ModbusRtuConfError::ValueNotNone("slave".to_owned())),
        };
        let serial_tty = match value.serial_tty {
            Some(v) => v,
            None => return Err(ModbusRtuConfError::ValueNotNone("serial_tty".to_owned())),
        };
        let baudrate = match value.baud_rate {
            Some(v) => v,
            None => return Err(ModbusRtuConfError::ValueNotNone("baud_rate".to_owned())),
        };
        let data_bits = match value.data_bits {
            Some(v) => v,
            None => return Err(ModbusRtuConfError::ValueNotNone("data_bits".to_owned())),
        };
        let parity = match value.parity {
            Some(v) => v,
            None => return Err(ModbusRtuConfError::ValueNotNone("parity".to_owned())),
        };
        let stop_bits = match value.stop_bits {
            Some(v) => v,
            None => return Err(ModbusRtuConfError::ValueNotNone("stop_bits".to_owned())),
        };
        let interval = match value.interval {
            Some(v) => v,
            None => return Err(ModbusRtuConfError::ValueNotNone("interval".to_owned())),
        };
        let timeout = match value.timeout {
            Some(v) => v,
            None => return Err(ModbusRtuConfError::ValueNotNone("timeout".to_owned())),
        };
        Ok(
            ModbusRtuConfig {
                slave,
                serial_tty,
                baudrate,
                data_bits,
                parity,
                stop_bits,
                interval,
                timeout,
            },
        )
    }
}


/// Whitespace that may precede a configuration document.
pub open spec fn is_leading_space(b: u8) -> bool {
    b == 0x20 || b == 0x0A || b == 0x0D || b == 0x09
}

/// The text starts with the UTF-8 byte order mark.
pub open spec fn has_bom(s: Seq<u8>) -> bool {
    s.len() >= 3 && s[0] == 0xEF && s[1] == 0xBB && s[2] == 0xBF
}

/// Length of the byte order mark at the start of the text.
pub open spec fn bom_len(s: Seq<u8>) -> int {
    if has_bom(s) {
        3
    } else {
        0
    }
}

/// Where a configuration document begins: after a UTF-8 byte order mark,
/// if any, and the whitespace that follows it.
pub fn document_start(bytes: &[u8]) -> (r: usize)
    ensures
        bom_len(bytes@) <= r <= bytes@.len(),
        forall|i: int| bom_len(bytes@) <= i < r ==> is_leading_space(#[trigger] bytes@[i]),
        r < bytes@.len() ==> !is_leading_space(bytes@[r as int]),
{
    let n = bytes.len();
    let mut i: usize = if n >= 3 && bytes[0] == 0xEF && bytes[1] == 0xBB && bytes[2] == 0xBF {
        3
    } else {
        0
    };
    let ghost start = i;
    while i < n && (bytes[i] == 0x20 || bytes[i] == 0x0A || bytes[i] == 0x0D || bytes[i] == 0x09)
        invariant
            n == bytes@.len(),
            start == bom_len(bytes@),
            start <= i <= n,
            forall|j: int| start <= j < i ==> is_leading_space(#[trigger] bytes@[j]),
        decreases n - i,
    {
        i = i + 1;
    }
    i
}

} // verus!
