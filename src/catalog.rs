//! Point catalog: data types, register classes, byte orders and point rows.

use vstd::prelude::*;

verus! {

/// Compares two string slices by their characters.
pub fn str_eq(a: &str, b: &str) -> (r: bool)
    ensures
        r == (a@ == b@),
{
    let x = a.to_owned();
    let y = b.to_owned();
    x == y
}

/// Numeric layout of a point on the bus.
#[derive(Debug, Clone, Copy, PartialEq, Eq, Structural, PartialOrd, Ord, Hash)]
pub enum ModbusDataType {
    Bool,
    U16,
    I16,
    U32,
    I32,
}

impl ModbusDataType {
    /// Number of registers (or bits) one point of this type occupies.
    pub open spec fn width(self) -> nat {
        match self {
            ModbusDataType::U32 | ModbusDataType::I32 => 2,
            _ => 1,
        }
    }

    pub fn quantity(&self) -> (r: u16)
        ensures
            r as nat == self.width(),
    {
        match self {
            ModbusDataType::I32 | ModbusDataType::U32 => 2,
            _ => 1,
        }
    }
}


/// The four Modbus register classes, in the order in which they are planned.
#[derive(Debug, Clone, Copy, PartialEq, Eq, Structural, PartialOrd, Ord, Hash)]
pub enum RegisterType {
    Coils,
    DiscreteInputs,
    HoldingRegisters,
    InputRegisters,
}

impl RegisterType {
    /// Function-code family number of the class (1 to 4).
    pub open spec fn code(self) -> u32 {
        match self {
            RegisterType::Coils => 1,
            RegisterType::DiscreteInputs => 2,
            RegisterType::HoldingRegisters => 3,
            RegisterType::InputRegisters => 4,
        }
    }

    /// Position of the class in planning order.
    pub open spec fn rank(self) -> int {
        match self {
            RegisterType::Coils => 0,
            RegisterType::DiscreteInputs => 1,
            RegisterType::HoldingRegisters => 2,
            RegisterType::InputRegisters => 3,
        }
    }

    /// Bit classes hold booleans; the others hold 16-bit words.
    pub open spec fn is_bit_class(self) -> bool {
        self == RegisterType::Coils || self == RegisterType::DiscreteInputs
    }

    /// Largest number of bits or registers fetched by one request.
    pub open spec fn max_len(self) -> int {
        if self.is_bit_class() {
            2000
        } else {
            120
        }
    }

    pub fn max_block_len(&self) -> (r: u16)
        ensures
            r as int == self.max_len(),
    {
        match self {
            RegisterType::Coils | RegisterType::DiscreteInputs => 2000,
            RegisterType::HoldingRegisters | RegisterType::InputRegisters => 120,
        }
    }
}

/// Sort key of a register class: its position in planning order.
pub fn register_type_key(rt: RegisterType) -> (r: u8)
    ensures
        r as int == rt.rank(),
{
    match rt {
        RegisterType::Coils => 0,
        RegisterType::DiscreteInputs => 1,
        RegisterType::HoldingRegisters => 2,
        RegisterType::InputRegisters => 3,
    }
}

/// End (exclusive) of a range of `qty` items from `start`; none for an empty
/// range or one whose end does not fit.
pub fn range_end(start: usize, qty: usize) -> (r: Option<usize>)
    ensures
        r == (if qty == 0 || start + qty > usize::MAX {
            None
        } else {
            Some((start + qty) as usize)
        }),
{
    if qty == 0 {
        return None;
    }
    start.checked_add(qty)
}

/// Word order of multi-byte values; no order means big-endian.
#[derive(Debug, Clone, Copy, PartialEq, Eq, Structural, PartialOrd, Ord, Hash)]
pub enum ByteOrder {
    AB,
    BA,
    ABCD,
    CDAB,
}

/// One catalog row: the fixed description of a point on a device. The affine
/// scale and offset of a point are applied outside this library.
#[derive(Debug, Clone)]
pub struct ModbusConfig {
    pub id: u32,
    pub name: String,
    pub data_type: ModbusDataType,
    pub unit: Option<String>,
    pub remarks: Option<String>,
    pub register_address: u16,
    pub register_type: RegisterType,
    pub byte_order: Option<ByteOrder>,
}

/// Largest point id plus one: ids are 24-bit.
pub const ID_LIMIT: u32 = 0x100_0000;

impl ModbusConfig {
    /// A row is valid when its id fits in 24 bits.
    pub open spec fn wf(&self) -> bool {
        self.id < ID_LIMIT
    }

    /// Registers (or bits) the point occupies.
    pub open spec fn width(&self) -> int {
        self.data_type.width() as int
    }

    /// Serial number unique within a device: the class code above the id.
    pub open spec fn serial_spec(&self) -> int {
        self.register_type.code() * 0x100_0000 + self.id
    }

    pub fn serial_num(&self) -> (r: u64)
        requires
            self.wf(),
        ensures
            r as int == self.serial_spec(),
    {
        let code: u32 = match self.register_type {
            RegisterType::Coils => 1,
            RegisterType::DiscreteInputs => 2,
            RegisterType::HoldingRegisters => 3,
            RegisterType::InputRegisters => 4,
        };
        let num: u32 = code * 0x100_0000 + self.id;
        num as u64
    }
}


#[derive(Debug, Clone, Copy, PartialEq, Eq, Structural)]
pub enum ModbusDataTypeError {
    InvalidDataType,
}

/// Data type named by a catalog cell.
pub open spec fn data_type_named(s: Seq<char>) -> Option<ModbusDataType> {
    if s == "bool"@ || s == "Bool"@ {
        Some(ModbusDataType::Bool)
    } else if s == "U16"@ {
        Some(ModbusDataType::U16)
    } else if s == "I16"@ {
        Some(ModbusDataType::I16)
    } else if s == "U32"@ {
        Some(ModbusDataType::U32)
    } else if s == "I32"@ {
        Some(ModbusDataType::I32)
    } else {
        None
    }
}

impl ModbusDataType {
    pub fn try_from(value: &str) -> (r: Result<ModbusDataType, ModbusDataTypeError>)
        ensures
            match data_type_named(value@) {
                Some(t) => r == Ok::<ModbusDataType, ModbusDataTypeError>(t),
                None => r == Err::<ModbusDataType, ModbusDataTypeError>(
                    ModbusDataTypeError::InvalidDataType,
                ),
            },
    {
        if str_eq(value, "bool") || str_eq(value, "Bool") {
            Ok(ModbusDataType::Bool)
        } else if str_eq(value, "U16") {
            Ok(ModbusDataType::U16)
        } else if str_eq(value, "I16") {
            Ok(ModbusDataType::I16)
        } else if str_eq(value, "U32") {
            Ok(ModbusDataType::U32)
        } else if str_eq(value, "I32") {
            Ok(ModbusDataType::I32)
        } else {
            Err(ModbusDataTypeError::InvalidDataType)
        }
    }
}

#[derive(Debug, Clone, Copy, PartialEq, Eq, Structural)]
pub enum ByteOrderError {
    InvalidByteOrder,
}

/// Byte order named by a catalog cell.
pub open spec fn byte_order_named(s: Option<Seq<char>>) -> Option<ByteOrder> {
    match s {
        Some(t) => if t == "AB"@ {
            Some(ByteOrder::AB)
        } else if t == "BA"@ {
            Some(ByteOrder::BA)
        } else if t == "ABCD"@ {
            Some(ByteOrder::ABCD)
        } else if t == "CDAB"@ {
            Some(ByteOrder::CDAB)
        } else {
            None
        },
        None => None,
    }
}

pub open spec fn opt_view(s: Option<&str>) -> Option<Seq<char>> {
    match s {
        Some(t) => Some(t@),
        None => None,
    }
}

impl ByteOrder {
    pub fn try_from(value: Option<&str>) -> (r: Result<ByteOrder, ByteOrderError>)
        ensures
            match byte_order_named(opt_view(value)) {
                Some(o) => r == Ok::<ByteOrder, ByteOrderError>(o),
                None => r == Err::<ByteOrder, ByteOrderError>(ByteOrderError::InvalidByteOrder),
            },
    {
        match value {
            Some(t) => {
                if str_eq(t, "AB") {
                    Ok(ByteOrder::AB)
                } else if str_eq(t, "BA") {
                    Ok(ByteOrder::BA)
                } else if str_eq(t, "ABCD") {
                    Ok(ByteOrder::ABCD)
                } else if str_eq(t, "CDAB") {
                    Ok(ByteOrder::CDAB)
                } else {
                    Err(ByteOrderError::InvalidByteOrder)
                }
            },
            None => Err(ByteOrderError::InvalidByteOrder),
        }
    }
}

#[derive(Debug, Clone, Copy, PartialEq, Eq, Structural)]
pub enum RegisterTypeError {
    InvalidRegisterType,
}

/// Register class named by a catalog cell.
pub open spec fn register_type_named(s: Seq<char>) -> Option<RegisterType> {
    if s == "Coils"@ {
        Some(RegisterType::Coils)
    } else if s == "DiscreteInputs"@ {
        Some(RegisterType::DiscreteInputs)
    } else if s == "HoldingRegisters"@ {
        Some(RegisterType::HoldingRegisters)
    } else if s == "InputRegisters"@ {
        Some(RegisterType::InputRegisters)
    } else {
        None
    }
}

impl RegisterType {
    pub fn try_from(value: &str) -> (r: Result<RegisterType, RegisterTypeError>)
        ensures
            match register_type_named(value@) {
                Some(t) => r == Ok::<RegisterType, RegisterTypeError>(t),
                None => r == Err::<RegisterType, RegisterTypeError>(
                    RegisterTypeError::InvalidRegisterType,
                ),
            },
    {
        if str_eq(value, "Coils") {
            Ok(RegisterType::Coils)
        } else if str_eq(value, "DiscreteInputs") {
            Ok(RegisterType::DiscreteInputs)
        } else if str_eq(value, "HoldingRegisters") {
            Ok(RegisterType::HoldingRegisters)
        } else if str_eq(value, "InputRegisters") {
            Ok(RegisterType::InputRegisters)
        } else {
            Err(RegisterTypeError::InvalidRegisterType)
        }
    }
}

/// Position of the catalog point named `name`; when several share the name,
/// the last one counts, as in a name map built in catalog order.
pub fn find_point(cfgs: &[ModbusConfig], name: &str) -> (r: Option<usize>)
    ensures
        match r {
            Some(i) => i < cfgs@.len() && cfgs@[i as int].name@ == name@ && forall|j: int|
                i < j < cfgs@.len() ==> (#[trigger] cfgs@[j]).name@ != name@,
            None => forall|j: int| 0 <= j < cfgs@.len() ==> (#[trigger] cfgs@[j]).name@ != name@,
        },
{
    let mut i: usize = cfgs.len();
    while i > 0
        invariant
            i <= cfgs@.len(),
            forall|j: int| i <= j < cfgs@.len() ==> (#[trigger] cfgs@[j]).name@ != name@,
        decreases i,
    {
        if str_eq(cfgs[i - 1].name.as_str(), name) {
            return Some(i - 1);
        }
        i = i - 1;
    }
    None
}

/// Which mandatory cell of a catalog row is missing.
#[derive(Debug, Clone, Copy, PartialEq, Eq, Structural)]
pub enum CatalogField {
    Id,
    Name,
    DataType,
    RegisterAddress,
    RegisterType,
    Scale,
    Offset,
}

/// Why a catalog row was rejected.
#[derive(Debug, Clone, Copy, PartialEq, Eq, Structural)]
pub enum CatalogRowError {
    /// The row does not have exactly ten cells.
    WrongLength,
    MissingField(CatalogField),
    /// The id does not fit in 24 bits.
    IdOutOfRange,
    InvalidDataType,
    InvalidRegisterType,
}

/// Number of cells in a catalog row.
pub const ROW_CELLS: usize = 10;

/// The cells of one catalog row, read as plain values: numbers already
/// truncated to their integer types, and only the presence of the scale and
/// offset, which are kept beside the row.
#[derive(Debug, Clone)]
pub struct CatalogRow {
    pub cells: usize,
    pub id: Option<u32>,
    pub name: Option<String>,
    pub data_type: Option<String>,
    pub unit: Option<String>,
    pub remarks: Option<String>,
    pub register_address: Option<u16>,
    pub register_type: Option<String>,
    pub byte_order: Option<String>,
    pub has_scale: bool,
    pub has_offset: bool,
}

pub open spec fn opt_string_view(s: Option<String>) -> Option<Seq<char>> {
    match s {
        Some(t) => Some(t@),
        None => None,
    }
}

/// The first reason, in cell order, for which a row is rejected.
pub open spec fn row_error(row: CatalogRow) -> Option<CatalogRowError> {
    if row.cells != ROW_CELLS {
        Some(CatalogRowError::WrongLength)
    } else if row.id is None {
        Some(CatalogRowError::MissingField(CatalogField::Id))
    } else if row.id->Some_0 >= ID_LIMIT {
        Some(CatalogRowError::IdOutOfRange)
    } else if row.name is None {
        Some(CatalogRowError::MissingField(CatalogField::Name))
    } else if row.data_type is None {
        Some(CatalogRowError::MissingField(CatalogField::DataType))
    } else if data_type_named(row.data_type->Some_0@) is None {
        Some(CatalogRowError::InvalidDataType)
    } else if row.register_address is None {
        Some(CatalogRowError::MissingField(CatalogField::RegisterAddress))
    } else if row.register_type is None {
        Some(CatalogRowError::MissingField(CatalogField::RegisterType))
    } else if register_type_named(row.register_type->Some_0@) is None {
        Some(CatalogRowError::InvalidRegisterType)
    } else if !row.has_scale {
        Some(CatalogRowError::MissingField(CatalogField::Scale))
    } else if !row.has_offset {
        Some(CatalogRowError::MissingField(CatalogField::Offset))
    } else {
        None
    }
}

impl ModbusConfig {
    /// Builds a catalog entry from a row; an unrecognised byte order is
    /// taken as none.
    pub fn build(row: CatalogRow) -> (r: Result<ModbusConfig, CatalogRowError>)
        ensures
            match r {
                Ok(c) => {
                    &&& row_error(row) is None
                    &&& c.wf()
                    &&& c.id == row.id->Some_0
                    &&& c.name@ == row.name->Some_0@
                    &&& Some(c.data_type) == data_type_named(row.data_type->Some_0@)
                    &&& opt_string_view(c.unit) == opt_string_view(row.unit)
                    &&& opt_string_view(c.remarks) == opt_string_view(row.remarks)
                    &&& c.register_address == row.register_address->Some_0
                    &&& Some(c.register_type) == register_type_named(
                        row.register_type->Some_0@,
                    )
                    &&& c.byte_order == byte_order_named(opt_string_view(row.byte_order))
                },
                Err(e) => row_error(row) == Some(e),
            },
    {
        if row.cells != ROW_CELLS {
            return Err(CatalogRowError::WrongLength);
        }
        let id = match row.id {
            Some(v) => v,
            None => return Err(CatalogRowError::MissingField(CatalogField::Id)),
        };
        if id >= ID_LIMIT {
            return Err(CatalogRowError::IdOutOfRange);
        }
        let name = match row.name {
            Some(v) => v,
            None => return Err(CatalogRowError::MissingField(CatalogField::Name)),
        };
        let data_type = match &row.data_type {
            Some(v) => match ModbusDataType::try_from(v.as_str()) {
                Ok(t) => t,
                Err(_) => return Err(CatalogRowError::InvalidDataType),
            },
            None => return Err(CatalogRowError::MissingField(CatalogField::DataType)),
        };
        let register_address = match row.register_address {
            Some(v) => v,
            None => return Err(CatalogRowError::MissingField(CatalogField::RegisterAddress)),
        };
        let register_type = match &row.register_type {
            Some(v) => match RegisterType::try_from(v.as_str()) {
                Ok(t) => t,
                Err(_) => return Err(CatalogRowError::InvalidRegisterType),
            },
            None => return Err(CatalogRowError::MissingField(CatalogField::RegisterType)),
        };
        let byte_order = match &row.byte_order {
            Some(v) => match ByteOrder::try_from(Some(v.as_str())) {
                Ok(o) => Some(o),
                Err(_) => None,
            },
            None => None,
        };
        if !row.has_scale {
            return Err(CatalogRowError::MissingField(CatalogField::Scale));
        }
        if !row.has_offset {
            return Err(CatalogRowError::MissingField(CatalogField::Offset));
        }
        Ok(
            ModbusConfig {
                id,
                name,
                data_type,
                unit: row.unit,
                remarks: row.remarks,
                register_address,
                register_type,
                byte_order,
            },
        )
    }
}

} // verus!
