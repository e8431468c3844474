//! The normalized in-memory hardware description: immutable value records
//! assembled once during parsing and only read during emission.

use vstd::prelude::*;

verus! {

/// The views of a sequence's elements, in order.
pub open spec fn views<T: View>(s: Seq<T>) -> Seq<T::V> {
    s.map_values(|x: T| x@)
}

/// A named contiguous bit range within a register: `lsb` and `msb` are
/// zero-based bit indices. The parser deliberately performs no `msb >= lsb`
/// or disjointness validation.
#[derive(Debug)]
pub struct Field {
    pub name: String,
    pub lsb: usize,
    pub msb: usize,
}

/// A register within a peripheral: `offset` is the address offset in
/// register-sized units from the peripheral base.
#[derive(Debug)]
pub struct Register {
    pub name: String,
    pub offset: usize,
    pub description: Option<String>,
    pub fields: Vec<Field>,
}

/// An interrupt line owned by a peripheral.
#[derive(Debug)]
pub struct Interrupt {
    pub name: String,
    pub value: usize,
}

/// An addressable hardware unit owning a base address, registers,
/// and interrupts.
#[derive(Debug)]
pub struct Peripheral {
    pub name: String,
    pub base: usize,
    pub size: usize,
    pub interrupt: Vec<Interrupt>,
    pub registers: Vec<Register>,
}

/// A memory region sourced from a vendor-extension block, independent of
/// peripherals.
#[derive(Debug)]
pub struct MemoryRegion {
    pub name: String,
    pub base: usize,
    pub size: usize,
}

/// The root aggregate handed from parsing to emission: peripherals and
/// memory regions, each kept in document order.
#[derive(Debug)]
pub struct Description {
    pub peripherals: Vec<Peripheral>,
    pub memory_regions: Vec<MemoryRegion>,
}

/// Mathematical model of a `Field`.
pub ghost struct FieldV {
    pub name: Seq<char>,
    pub lsb: usize,
    pub msb: usize,
}

/// Mathematical model of a `Register`.
pub ghost struct RegisterV {
    pub name: Seq<char>,
    pub offset: usize,
    pub description: Option<Seq<char>>,
    pub fields: Seq<FieldV>,
}

/// Mathematical model of an `Interrupt`.
pub ghost struct InterruptV {
    pub name: Seq<char>,
    pub value: usize,
}

/// Mathematical model of a `Peripheral`.
pub ghost struct PeripheralV {
    pub name: Seq<char>,
    pub base: usize,
    pub size: usize,
    pub interrupt: Seq<InterruptV>,
    pub registers: Seq<RegisterV>,
}

/// Mathematical model of a `MemoryRegion`.
pub ghost struct MemoryRegionV {
    pub name: Seq<char>,
    pub base: usize,
    pub size: usize,
}

/// Mathematical model of a `Description`.
pub ghost struct DescriptionV {
    pub peripherals: Seq<PeripheralV>,
    pub memory_regions: Seq<MemoryRegionV>,
}

impl View for Field {
    type V = FieldV;

    open spec fn view(&self) -> FieldV {
        FieldV { name: self.name@, lsb: self.lsb, msb: self.msb }
    }
}

impl View for Register {
    type V = RegisterV;

    open spec fn view(&self) -> RegisterV {
        RegisterV {
            name: self.name@,
            offset: self.offset,
            description: match self.description {
                Some(s) => Some(s@),
                None => None,
            },
            fields: views(self.fields@),
        }
    }
}

impl View for Interrupt {
    type V = InterruptV;

    open spec fn view(&self) -> InterruptV {
        InterruptV { name: self.name@, value: self.value }
    }
}

impl View for Peripheral {
    type V = PeripheralV;

    open spec fn view(&self) -> PeripheralV {
        PeripheralV {
            name: self.name@,
            base: self.base,
            size: self.size,
            interrupt: views(self.interrupt@),
            registers: views(self.registers@),
        }
    }
}

impl View for MemoryRegion {
    type V = MemoryRegionV;

    open spec fn view(&self) -> MemoryRegionV {
        MemoryRegionV { name: self.name@, base: self.base, size: self.size }
    }
}

impl View for Description {
    type V = DescriptionV;

    open spec fn view(&self) -> DescriptionV {
        DescriptionV {
            peripherals: views(self.peripherals@),
            memory_regions: views(self.memory_regions@),
        }
    }
}

} // verus!
