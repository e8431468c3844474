//! The recursive-descent parser: one routine per schema node, each walking
//! the tokenized event list from an index and accumulating the node's data
//! until the node's own end tag closes it. Scalar tags are dispatched on the
//! start tag's full decoded text; container children and closing tags on the
//! tag name. Every routine is pinned to a specification function over the
//! event sequence, so its whole behaviour — including which error comes
//! back on which input — is stated, not just the success case.
//!
//! Where a specification function resumes after a child node, it guards the
//! child's returned index so that its own recursion visibly terminates; a
//! successful child parse always advances within bounds (each executable
//! routine's postcondition says so), so the guarded branch never describes
//! the outcome of a real parse.

use vstd::prelude::*;

use crate::model::{views, Description, DescriptionV, Field, FieldV, Interrupt, InterruptV,
    MemoryRegion, MemoryRegionV, Peripheral, PeripheralV, Register, RegisterV};
use crate::num::{parse_usize, spec_parse_literal};
use crate::text::str_eq;
use crate::xml::{spec_tokenize, tokenize, XmlEvent, XmlEventV};
use crate::ParseError;

verus! {

/// The view of an optional string.
pub open spec fn opt_str_v(o: Option<String>) -> Option<Seq<char>> {
    match o {
        Some(s) => Some(s@),
        None => None,
    }
}

/// Contents extraction: the event at `i` must be character data, whose text
/// is the scalar tag's value; anything else is a schema violation.
pub open spec fn spec_extract(evs: Seq<XmlEventV>, i: int) -> Result<Seq<char>, ParseError> {
    if 0 <= i < evs.len() {
        match evs[i] {
            XmlEventV::Text { text } => Ok(text),
            _ => Err(ParseError::UnexpectedTag),
        }
    } else {
        Err(ParseError::UnexpectedTag)
    }
}

/// One `<field>` node from index `i`: scalar tags `name`, `lsb`, `msb` fill
/// the accumulators, unknown tags are ignored, and the node's own end tag
/// closes it — failing with `MissingValue` if a required scalar never
/// appeared. Running past the end of the document is a schema violation.
pub open spec fn spec_parse_field(
    evs: Seq<XmlEventV>,
    i: int,
    name: Option<Seq<char>>,
    lsb: Option<usize>,
    msb: Option<usize>,
) -> Result<(FieldV, int), ParseError>
    decreases evs.len() - i,
{
    if i < 0 || i >= evs.len() {
        Err(ParseError::UnexpectedTag)
    } else {
        match evs[i] {
            XmlEventV::Start { name: _, text: t } => {
                if t == "name"@ {
                    match spec_extract(evs, i + 1) {
                        Ok(s) => spec_parse_field(evs, i + 2, Some(s), lsb, msb),
                        Err(e) => Err(e),
                    }
                } else if t == "lsb"@ {
                    match spec_extract(evs, i + 1) {
                        Ok(s) => match spec_parse_literal(s) {
                            Some(v) => spec_parse_field(evs, i + 2, name, Some(v), msb),
                            None => Err(ParseError::ParseIntError),
                        },
                        Err(e) => Err(e),
                    }
                } else if t == "msb"@ {
                    match spec_extract(evs, i + 1) {
                        Ok(s) => match spec_parse_literal(s) {
                            Some(v) => spec_parse_field(evs, i + 2, name, lsb, Some(v)),
                            None => Err(ParseError::ParseIntError),
                        },
                        Err(e) => Err(e),
                    }
                } else {
                    spec_parse_field(evs, i + 1, name, lsb, msb)
                }
            },
            XmlEventV::End { name: n } => {
                if n == "field"@ {
                    match (name, lsb, msb) {
                        (Some(nm), Some(l), Some(m)) => Ok(
                            (FieldV { name: nm, lsb: l, msb: m }, i + 1),
                        ),
                        _ => Err(ParseError::MissingValue),
                    }
                } else {
                    spec_parse_field(evs, i + 1, name, lsb, msb)
                }
            },
            _ => spec_parse_field(evs, i + 1, name, lsb, msb),
        }
    }
}

/// A `<fields>` container from index `i`: each child must open with a
/// `<field>` start tag; character data between children is skipped; the
/// container's end tag closes it; any other event is a schema violation.
pub open spec fn spec_parse_fields(evs: Seq<XmlEventV>, i: int, acc: Seq<FieldV>) -> Result<
    (Seq<FieldV>, int),
    ParseError,
>
    decreases evs.len() - i,
{
    if i < 0 || i >= evs.len() {
        Err(ParseError::UnexpectedTag)
    } else {
        match evs[i] {
            XmlEventV::Start { name: n, text: _ } => {
                if n == "field"@ {
                    match spec_parse_field(evs, i + 1, None, None, None) {
                        Ok((f, j)) => if i + 1 < j && j <= evs.len() {
                            spec_parse_fields(evs, j, acc.push(f))
                        } else {
                            Err(ParseError::UnexpectedTag)
                        },
                        Err(e) => Err(e),
                    }
                } else {
                    Err(ParseError::UnexpectedTag)
                }
            },
            XmlEventV::End { name: n } => {
                if n == "fields"@ {
                    Ok((acc, i + 1))
                } else {
                    Err(ParseError::UnexpectedTag)
                }
            },
            XmlEventV::Text { .. } => spec_parse_fields(evs, i + 1, acc),
            _ => Err(ParseError::UnexpectedTag),
        }
    }
}

/// One `<interrupt>` node from index `i`: scalar tags `name` and `value`.
pub open spec fn spec_parse_interrupt(
    evs: Seq<XmlEventV>,
    i: int,
    name: Option<Seq<char>>,
    value: Option<usize>,
) -> Result<(InterruptV, int), ParseError>
    decreases evs.len() - i,
{
    if i < 0 || i >= evs.len() {
        Err(ParseError::UnexpectedTag)
    } else {
        match evs[i] {
            XmlEventV::Start { name: _, text: t } => {
                if t == "name"@ {
                    match spec_extract(evs, i + 1) {
                        Ok(s) => spec_parse_interrupt(evs, i + 2, Some(s), value),
                        Err(e) => Err(e),
                    }
                } else if t == "value"@ {
                    match spec_extract(evs, i + 1) {
                        Ok(s) => match spec_parse_literal(s) {
                            Some(v) => spec_parse_interrupt(evs, i + 2, name, Some(v)),
                            None => Err(ParseError::ParseIntError),
                        },
                        Err(e) => Err(e),
                    }
                } else {
                    spec_parse_interrupt(evs, i + 1, name, value)
                }
            },
            XmlEventV::End { name: n } => {
                if n == "interrupt"@ {
                    match (name, value) {
                        (Some(nm), Some(v)) => Ok((InterruptV { name: nm, value: v }, i + 1)),
                        _ => Err(ParseError::MissingValue),
                    }
                } else {
                    spec_parse_interrupt(evs, i + 1, name, value)
                }
            },
            _ => spec_parse_interrupt(evs, i + 1, name, value),
        }
    }
}

/// One `<register>` node from index `i`: scalar tags `name` and
/// `addressOffset`, a `<fields>` container appending to the accumulated
/// fields, unknown tags ignored. No description is ever collected.
pub open spec fn spec_parse_register(
    evs: Seq<XmlEventV>,
    i: int,
    name: Option<Seq<char>>,
    offset: Option<usize>,
    fields: Seq<FieldV>,
) -> Result<(RegisterV, int), ParseError>
    decreases evs.len() - i,
{
    if i < 0 || i >= evs.len() {
        Err(ParseError::UnexpectedTag)
    } else {
        match evs[i] {
            XmlEventV::Start { name: _, text: t } => {
                if t == "name"@ {
                    match spec_extract(evs, i + 1) {
                        Ok(s) => spec_parse_register(evs, i + 2, Some(s), offset, fields),
                        Err(e) => Err(e),
                    }
                } else if t == "addressOffset"@ {
                    match spec_extract(evs, i + 1) {
                        Ok(s) => match spec_parse_literal(s) {
                            Some(v) => spec_parse_register(evs, i + 2, name, Some(v), fields),
                            None => Err(ParseError::ParseIntError),
                        },
                        Err(e) => Err(e),
                    }
                } else if t == "fields"@ {
                    match spec_parse_fields(evs, i + 1, fields) {
                        Ok((fs, j)) => if i + 1 < j && j <= evs.len() {
                            spec_parse_register(evs, j, name, offset, fs)
                        } else {
                            Err(ParseError::UnexpectedTag)
                        },
                        Err(e) => Err(e),
                    }
                } else {
                    spec_parse_register(evs, i + 1, name, offset, fields)
                }
            },
            XmlEventV::End { name: n } => {
                if n == "register"@ {
                    match (name, offset) {
                        (Some(nm), Some(o)) => Ok(
                            (
                                RegisterV {
                                    name: nm,
                                    offset: o,
                                    description: None,
                                    fields: fields,
                                },
                                i + 1,
                            ),
                        ),
                        _ => Err(ParseError::MissingValue),
                    }
                } else {
                    spec_parse_register(evs, i + 1, name, offset, fields)
                }
            },
            _ => spec_parse_register(evs, i + 1, name, offset, fields),
        }
    }
}

/// A `<registers>` container from index `i`, collecting `<register>`
/// children.
pub open spec fn spec_parse_registers(evs: Seq<XmlEventV>, i: int, acc: Seq<RegisterV>) -> Result<
    (Seq<RegisterV>, int),
    ParseError,
>
    decreases evs.len() - i,
{
    if i < 0 || i >= evs.len() {
        Err(ParseError::UnexpectedTag)
    } else {
        match evs[i] {
            XmlEventV::Start { name: n, text: _ } => {
                if n == "register"@ {
                    match spec_parse_register(evs, i + 1, None, None, Seq::empty()) {
                        Ok((r, j)) => if i + 1 < j && j <= evs.len() {
                            spec_parse_registers(evs, j, acc.push(r))
                        } else {
                            Err(ParseError::UnexpectedTag)
                        },
                        Err(e) => Err(e),
                    }
                } else {
                    Err(ParseError::UnexpectedTag)
                }
            },
            XmlEventV::End { name: n } => {
                if n == "registers"@ {
                    Ok((acc, i + 1))
                } else {
                    Err(ParseError::UnexpectedTag)
                }
            },
            XmlEventV::Text { .. } => spec_parse_registers(evs, i + 1, acc),
            _ => Err(ParseError::UnexpectedTag),
        }
    }
}

/// One `<peripheral>` node from index `i`: scalar tags `name`,
/// `baseAddress`, `size`; a `<registers>` container appending registers; an
/// `<interrupt>` node appending one interrupt; unknown tags ignored.
pub open spec fn spec_parse_peripheral(
    evs: Seq<XmlEventV>,
    i: int,
    name: Option<Seq<char>>,
    base: Option<usize>,
    size: Option<usize>,
    interrupts: Seq<InterruptV>,
    registers: Seq<RegisterV>,
) -> Result<(PeripheralV, int), ParseError>
    decreases evs.len() - i,
{
    if i < 0 || i >= evs.len() {
        Err(ParseError::UnexpectedTag)
    } else {
        match evs[i] {
            XmlEventV::Start { name: _, text: t } => {
                if t == "name"@ {
                    match spec_extract(evs, i + 1) {
                        Ok(s) => spec_parse_peripheral(
                            evs,
                            i + 2,
                            Some(s),
                            base,
                            size,
                            interrupts,
                            registers,
                        ),
                        Err(e) => Err(e),
                    }
                } else if t == "baseAddress"@ {
                    match spec_extract(evs, i + 1) {
                        Ok(s) => match spec_parse_literal(s) {
                            Some(v) => spec_parse_peripheral(
                                evs,
                                i + 2,
                                name,
                                Some(v),
                                size,
                                interrupts,
                                registers,
                            ),
                            None => Err(ParseError::ParseIntError),
                        },
                        Err(e) => Err(e),
                    }
                } else if t == "size"@ {
                    match spec_extract(evs, i + 1) {
                        Ok(s) => match spec_parse_literal(s) {
                            Some(v) => spec_parse_peripheral(
                                evs,
                                i + 2,
                                name,
                                base,
                                Some(v),
                                interrupts,
                                registers,
                            ),
                            None => Err(ParseError::ParseIntError),
                        },
                        Err(e) => Err(e),
                    }
                } else if t == "registers"@ {
                    match spec_parse_registers(evs, i + 1, registers) {
                        Ok((rs, j)) => if i + 1 < j && j <= evs.len() {
                            spec_parse_peripheral(evs, j, name, base, size, interrupts, rs)
                        } else {
                            Err(ParseError::UnexpectedTag)
                        },
                        Err(e) => Err(e),
                    }
                } else if t == "interrupt"@ {
                    match spec_parse_interrupt(evs, i + 1, None, None) {
                        Ok((iv, j)) => if i + 1 < j && j <= evs.len() {
                            spec_parse_peripheral(
                                evs,
                                j,
                                name,
                                base,
                                size,
                                interrupts.push(iv),
                                registers,
                            )
                        } else {
                            Err(ParseError::UnexpectedTag)
                        },
                        Err(e) => Err(e),
                    }
                } else {
                    spec_parse_peripheral(evs, i + 1, name, base, size, interrupts, registers)
                }
            },
            XmlEventV::End { name: n } => {
                if n == "peripheral"@ {
                    match (name, base, size) {
                        (Some(nm), Some(b), Some(s)) => Ok(
                            (
                                PeripheralV {
                                    name: nm,
                                    base: b,
                                    size: s,
                                    interrupt: interrupts,
                                    registers: registers,
                                },
                                i + 1,
                            ),
                        ),
                        _ => Err(ParseError::MissingValue),
                    }
                } else {
                    spec_parse_peripheral(evs, i + 1, name, base, size, interrupts, registers)
                }
            },
            _ => spec_parse_peripheral(evs, i + 1, name, base, size, interrupts, registers),
        }
    }
}

/// A `<peripherals>` container from index `i`, collecting `<peripheral>`
/// children.
pub open spec fn spec_parse_peripherals(
    evs: Seq<XmlEventV>,
    i: int,
    acc: Seq<PeripheralV>,
) -> Result<(Seq<PeripheralV>, int), ParseError>
    decreases evs.len() - i,
{
    if i < 0 || i >= evs.len() {
        Err(ParseError::UnexpectedTag)
    } else {
        match evs[i] {
            XmlEventV::Start { name: n, text: _ } => {
                if n == "peripheral"@ {
                    match spec_parse_peripheral(
                        evs,
                        i + 1,
                        None,
                        None,
                        None,
                        Seq::empty(),
                        Seq::empty(),
                    ) {
                        Ok((p, j)) => if i + 1 < j && j <= evs.len() {
                            spec_parse_peripherals(evs, j, acc.push(p))
                        } else {
                            Err(ParseError::UnexpectedTag)
                        },
                        Err(e) => Err(e),
                    }
                } else {
                    Err(ParseError::UnexpectedTag)
                }
            },
            XmlEventV::End { name: n } => {
                if n == "peripherals"@ {
                    Ok((acc, i + 1))
                } else {
                    Err(ParseError::UnexpectedTag)
                }
            },
            XmlEventV::Text { .. } => spec_parse_peripherals(evs, i + 1, acc),
            _ => Err(ParseError::UnexpectedTag),
        }
    }
}

/// One `<memoryRegion>` node from index `i`: scalar tags `name`,
/// `baseAddress`, `size`.
pub open spec fn spec_parse_memory_region(
    evs: Seq<XmlEventV>,
    i: int,
    name: Option<Seq<char>>,
    base: Option<usize>,
    size: Option<usize>,
) -> Result<(MemoryRegionV, int), ParseError>
    decreases evs.len() - i,
{
    if i < 0 || i >= evs.len() {
        Err(ParseError::UnexpectedTag)
    } else {
        match evs[i] {
            XmlEventV::Start { name: _, text: t } => {
                if t == "name"@ {
                    match spec_extract(evs, i + 1) {
                        Ok(s) => spec_parse_memory_region(evs, i + 2, Some(s), base, size),
                        Err(e) => Err(e),
                    }
                } else if t == "baseAddress"@ {
                    match spec_extract(evs, i + 1) {
                        Ok(s) => match spec_parse_literal(s) {
                            Some(v) => spec_parse_memory_region(evs, i + 2, name, Some(v), size),
                            None => Err(ParseError::ParseIntError),
                        },
                        Err(e) => Err(e),
                    }
                } else if t == "size"@ {
                    match spec_extract(evs, i + 1) {
                        Ok(s) => match spec_parse_literal(s) {
                            Some(v) => spec_parse_memory_region(evs, i + 2, name, base, Some(v)),
                            None => Err(ParseError::ParseIntError),
                        },
                        Err(e) => Err(e),
                    }
                } else {
                    spec_parse_memory_region(evs, i + 1, name, base, size)
                }
            },
            XmlEventV::End { name: n } => {
                if n == "memoryRegion"@ {
                    match (name, base, size) {
                        (Some(nm), Some(b), Some(s)) => Ok(
                            (MemoryRegionV { name: nm, base: b, size: s }, i + 1),
                        ),
                        _ => Err(ParseError::MissingValue),
                    }
                } else {
                    spec_parse_memory_region(evs, i + 1, name, base, size)
                }
            },
            _ => spec_parse_memory_region(evs, i + 1, name, base, size),
        }
    }
}

/// A `<memoryRegions>` container from index `i`, appending `<memoryRegion>`
/// children to the accumulated regions.
pub open spec fn spec_parse_memory_regions(
    evs: Seq<XmlEventV>,
    i: int,
    acc: Seq<MemoryRegionV>,
) -> Result<(Seq<MemoryRegionV>, int), ParseError>
    decreases evs.len() - i,
{
    if i < 0 || i >= evs.len() {
        Err(ParseError::UnexpectedTag)
    } else {
        match evs[i] {
            XmlEventV::Start { name: n, text: _ } => {
                if n == "memoryRegion"@ {
                    match spec_parse_memory_region(evs, i + 1, None, None, None) {
                        Ok((m, j)) => if i + 1 < j && j <= evs.len() {
                            spec_parse_memory_regions(evs, j, acc.push(m))
                        } else {
                            Err(ParseError::UnexpectedTag)
                        },
                        Err(e) => Err(e),
                    }
                } else {
                    Err(ParseError::UnexpectedTag)
                }
            },
            XmlEventV::End { name: n } => {
                if n == "memoryRegions"@ {
                    Ok((acc, i + 1))
                } else {
                    Err(ParseError::UnexpectedTag)
                }
            },
            XmlEventV::Text { .. } => spec_parse_memory_regions(evs, i + 1, acc),
            _ => Err(ParseError::UnexpectedTag),
        }
    }
}

/// A `<vendorExtensions>` container from index `i`: its only recognized
/// child is a `<memoryRegions>` container.
pub open spec fn spec_parse_vendor_extensions(
    evs: Seq<XmlEventV>,
    i: int,
    acc: Seq<MemoryRegionV>,
) -> Result<(Seq<MemoryRegionV>, int), ParseError>
    decreases evs.len() - i,
{
    if i < 0 || i >= evs.len() {
        Err(ParseError::UnexpectedTag)
    } else {
        match evs[i] {
            XmlEventV::Start { name: n, text: _ } => {
                if n == "memoryRegions"@ {
                    match spec_parse_memory_regions(evs, i + 1, acc) {
                        Ok((ms, j)) => if i + 1 < j && j <= evs.len() {
                            spec_parse_vendor_extensions(evs, j, ms)
                        } else {
                            Err(ParseError::UnexpectedTag)
                        },
                        Err(e) => Err(e),
                    }
                } else {
                    Err(ParseError::UnexpectedTag)
                }
            },
            XmlEventV::End { name: n } => {
                if n == "vendorExtensions"@ {
                    Ok((acc, i + 1))
                } else {
                    Err(ParseError::UnexpectedTag)
                }
            },
            XmlEventV::Text { .. } => spec_parse_vendor_extensions(evs, i + 1, acc),
            _ => Err(ParseError::UnexpectedTag),
        }
    }
}

/// The root routine from index `i`: a `<peripherals>` container replaces the
/// peripherals collected so far, a `<vendorExtensions>` block appends memory
/// regions, every other event is ignored, and end-of-document yields the
/// finished description.
pub open spec fn spec_parse_document(
    evs: Seq<XmlEventV>,
    i: int,
    peripherals: Seq<PeripheralV>,
    memory_regions: Seq<MemoryRegionV>,
) -> Result<DescriptionV, ParseError>
    decreases evs.len() - i,
{
    if i < 0 {
        Err(ParseError::UnexpectedTag)
    } else if i >= evs.len() {
        Ok(DescriptionV { peripherals: peripherals, memory_regions: memory_regions })
    } else {
        match evs[i] {
            XmlEventV::Start { name: n, text: _ } => {
                if n == "peripherals"@ {
                    match spec_parse_peripherals(evs, i + 1, Seq::empty()) {
                        Ok((ps, j)) => if i + 1 < j && j <= evs.len() {
                            spec_parse_document(evs, j, ps, memory_regions)
                        } else {
                            Err(ParseError::UnexpectedTag)
                        },
                        Err(e) => Err(e),
                    }
                } else if n == "vendorExtensions"@ {
                    match spec_parse_vendor_extensions(evs, i + 1, memory_regions) {
                        Ok((ms, j)) => if i + 1 < j && j <= evs.len() {
                            spec_parse_document(evs, j, peripherals, ms)
                        } else {
                            Err(ParseError::UnexpectedTag)
                        },
                        Err(e) => Err(e),
                    }
                } else {
                    spec_parse_document(evs, i + 1, peripherals, memory_regions)
                }
            },
            _ => spec_parse_document(evs, i + 1, peripherals, memory_regions),
        }
    }
}

/// Extract the contents of a scalar tag: exactly one character-data event
/// must follow the start tag.
pub fn extract_contents(events: &Vec<XmlEvent>, i: usize) -> (r: Result<String, ParseError>)
    ensures
        match r {
            Ok(s) => spec_extract(views(events@), i as int) == Ok::<Seq<char>, ParseError>(s@) && i
                < events@.len(),
            Err(e) => spec_extract(views(events@), i as int) == Err::<Seq<char>, ParseError>(e),
        },
{
    proof {
        assert(views(events@).len() == events@.len());
    }
    if i >= events.len() {
        return Err(ParseError::UnexpectedTag);
    }
    proof {
        assert(views(events@)[i as int] == events@[i as int]@);
    }
    match &events[i] {
        XmlEvent::Text { text } => Ok(text.clone()),
        _ => Err(ParseError::UnexpectedTag),
    }
}

/// Parse one `<field>` node from index `i`.
pub fn generate_field(
    events: &Vec<XmlEvent>,
    i: usize,
    name: Option<String>,
    lsb: Option<usize>,
    msb: Option<usize>,
) -> (r: Result<(Field, usize), ParseError>)
    ensures
        match r {
            Ok(p) => i < p.1 <= events@.len() && spec_parse_field(
                views(events@),
                i as int,
                opt_str_v(name),
                lsb,
                msb,
            ) == Ok::<(FieldV, int), ParseError>((p.0@, p.1 as int)),
            Err(e) => spec_parse_field(views(events@), i as int, opt_str_v(name), lsb, msb)
                == Err::<(FieldV, int), ParseError>(e),
        },
    decreases events@.len() - i,
{
    proof {
        assert(views(events@).len() == events@.len());
    }
    if i >= events.len() {
        return Err(ParseError::UnexpectedTag);
    }
    proof {
        assert(views(events@)[i as int] == events@[i as int]@);
    }
    match &events[i] {
        XmlEvent::Start { name: _, text } => {
            if str_eq(text.as_str(), "name") {
                match extract_contents(events, i + 1) {
                    Ok(s) => generate_field(events, i + 2, Some(s), lsb, msb),
                    Err(e) => Err(e),
                }
            } else if str_eq(text.as_str(), "lsb") {
                match extract_contents(events, i + 1) {
                    Ok(s) => match parse_usize(s.as_str()) {
                        Ok(v) => generate_field(events, i + 2, name, Some(v), msb),
                        Err(e) => Err(e),
                    },
                    Err(e) => Err(e),
                }
            } else if str_eq(text.as_str(), "msb") {
                match extract_contents(events, i + 1) {
                    Ok(s) => match parse_usize(s.as_str()) {
                        Ok(v) => generate_field(events, i + 2, name, lsb, Some(v)),
                        Err(e) => Err(e),
                    },
                    Err(e) => Err(e),
                }
            } else {
                generate_field(events, i + 1, name, lsb, msb)
            }
        },
        XmlEvent::End { name: tag } => {
            if str_eq(tag.as_str(), "field") {
                match (name, lsb, msb) {
                    (Some(n), Some(l), Some(m)) => Ok((Field { name: n, lsb: l, msb: m }, i + 1)),
                    _ => Err(ParseError::MissingValue),
                }
            } else {
                generate_field(events, i + 1, name, lsb, msb)
            }
        },
        _ => generate_field(events, i + 1, name, lsb, msb),
    }
}

/// Parse a `<fields>` container from index `i`, appending to `fields`.
pub fn generate_fields(events: &Vec<XmlEvent>, i: usize, fields: Vec<Field>) -> (r: Result<
    (Vec<Field>, usize),
    ParseError,
>)
    ensures
        match r {
            Ok(p) => i < p.1 <= events@.len() && spec_parse_fields(
                views(events@),
                i as int,
                views(fields@),
            ) == Ok::<(Seq<FieldV>, int), ParseError>((views(p.0@), p.1 as int)),
            Err(e) => spec_parse_fields(views(events@), i as int, views(fields@)) == Err::<
                (Seq<FieldV>, int),
                ParseError,
            >(e),
        },
    decreases events@.len() - i,
{
    proof {
        assert(views(events@).len() == events@.len());
    }
    if i >= events.len() {
        return Err(ParseError::UnexpectedTag);
    }
    proof {
        assert(views(events@)[i as int] == events@[i as int]@);
    }
    match &events[i] {
        XmlEvent::Start { name: tag, text: _ } => {
            if str_eq(tag.as_str(), "field") {
                match generate_field(events, i + 1, None, None, None) {
                    Ok((f, j)) => {
                        let mut fs = fields;
                        fs.push(f);
                        proof {
                            assert(views(fs@) =~= views(fields@).push(f@));
                        }
                        generate_fields(events, j, fs)
                    },
                    Err(e) => Err(e),
                }
            } else {
                Err(ParseError::UnexpectedTag)
            }
        },
        XmlEvent::End { name: tag } => {
            if str_eq(tag.as_str(), "fields") {
                Ok((fields, i + 1))
            } else {
                Err(ParseError::UnexpectedTag)
            }
        },
        XmlEvent::Text { .. } => generate_fields(events, i + 1, fields),
        XmlEvent::Other => Err(ParseError::UnexpectedTag),
    }
}

/// Parse one `<interrupt>` node from index `i`.
pub fn generate_interrupts(
    events: &Vec<XmlEvent>,
    i: usize,
    name: Option<String>,
    value: Option<usize>,
) -> (r: Result<(Interrupt, usize), ParseError>)
    ensures
        match r {
            Ok(p) => i < p.1 <= events@.len() && spec_parse_interrupt(
                views(events@),
                i as int,
                opt_str_v(name),
                value,
            ) == Ok::<(InterruptV, int), ParseError>((p.0@, p.1 as int)),
            Err(e) => spec_parse_interrupt(views(events@), i as int, opt_str_v(name), value)
                == Err::<(InterruptV, int), ParseError>(e),
        },
    decreases events@.len() - i,
{
    proof {
        assert(views(events@).len() == events@.len());
    }
    if i >= events.len() {
        return Err(ParseError::UnexpectedTag);
    }
    proof {
        assert(views(events@)[i as int] == events@[i as int]@);
    }
    match &events[i] {
        XmlEvent::Start { name: _, text } => {
            if str_eq(text.as_str(), "name") {
                match extract_contents(events, i + 1) {
                    Ok(s) => generate_interrupts(events, i + 2, Some(s), value),
                    Err(e) => Err(e),
                }
            } else if str_eq(text.as_str(), "value") {
                match extract_contents(events, i + 1) {
                    Ok(s) => match parse_usize(s.as_str()) {
                        Ok(v) => generate_interrupts(events, i + 2, name, Some(v)),
                        Err(e) => Err(e),
                    },
                    Err(e) => Err(e),
                }
            } else {
                generate_interrupts(events, i + 1, name, value)
            }
        },
        XmlEvent::End { name: tag } => {
            if str_eq(tag.as_str(), "interrupt") {
                match (name, value) {
                    (Some(n), Some(v)) => Ok((Interrupt { name: n, value: v }, i + 1)),
                    _ => Err(ParseError::MissingValue),
                }
            } else {
                generate_interrupts(events, i + 1, name, value)
            }
        },
        _ => generate_interrupts(events, i + 1, name, value),
    }
}

/// Parse one `<register>` node from index `i`.
pub fn generate_register(
    events: &Vec<XmlEvent>,
    i: usize,
    name: Option<String>,
    offset: Option<usize>,
    fields: Vec<Field>,
) -> (r: Result<(Register, usize), ParseError>)
    ensures
        match r {
            Ok(p) => i < p.1 <= events@.len() && spec_parse_register(
                views(events@),
                i as int,
                opt_str_v(name),
                offset,
                views(fields@),
            ) == Ok::<(RegisterV, int), ParseError>((p.0@, p.1 as int)),
            Err(e) => spec_parse_register(
                views(events@),
                i as int,
                opt_str_v(name),
                offset,
                views(fields@),
            ) == Err::<(RegisterV, int), ParseError>(e),
        },
    decreases events@.len() - i,
{
    proof {
        assert(views(events@).len() == events@.len());
    }
    if i >= events.len() {
        return Err(ParseError::UnexpectedTag);
    }
    proof {
        assert(views(events@)[i as int] == events@[i as int]@);
    }
    match &events[i] {
        XmlEvent::Start { name: _, text } => {
            if str_eq(text.as_str(), "name") {
                match extract_contents(events, i + 1) {
                    Ok(s) => generate_register(events, i + 2, Some(s), offset, fields),
                    Err(e) => Err(e),
                }
            } else if str_eq(text.as_str(), "addressOffset") {
                match extract_contents(events, i + 1) {
                    Ok(s) => match parse_usize(s.as_str()) {
                        Ok(v) => generate_register(events, i + 2, name, Some(v), fields),
                        Err(e) => Err(e),
                    },
                    Err(e) => Err(e),
                }
            } else if str_eq(text.as_str(), "fields") {
                match generate_fields(events, i + 1, fields) {
                    Ok((fs, j)) => generate_register(events, j, name, offset, fs),
                    Err(e) => Err(e),
                }
            } else {
                generate_register(events, i + 1, name, offset, fields)
            }
        },
        XmlEvent::End { name: tag } => {
            if str_eq(tag.as_str(), "register") {
                match (name, offset) {
                    (Some(n), Some(o)) => Ok(
                        (Register { name: n, offset: o, description: None, fields }, i + 1),
                    ),
                    _ => Err(ParseError::MissingValue),
                }
            } else {
                generate_register(events, i + 1, name, offset, fields)
            }
        },
        _ => generate_register(events, i + 1, name, offset, fields),
    }
}

/// Parse a `<registers>` container from index `i`, appending to `registers`.
pub fn generate_registers(events: &Vec<XmlEvent>, i: usize, registers: Vec<Register>) -> (r: Result<
    (Vec<Register>, usize),
    ParseError,
>)
    ensures
        match r {
            Ok(p) => i < p.1 <= events@.len() && spec_parse_registers(
                views(events@),
                i as int,
                views(registers@),
            ) == Ok::<(Seq<RegisterV>, int), ParseError>((views(p.0@), p.1 as int)),
            Err(e) => spec_parse_registers(views(events@), i as int, views(registers@)) == Err::<
                (Seq<RegisterV>, int),
                ParseError,
            >(e),
        },
    decreases events@.len() - i,
{
    proof {
        assert(views(events@).len() == events@.len());
    }
    if i >= events.len() {
        return Err(ParseError::UnexpectedTag);
    }
    proof {
        assert(views(events@)[i as int] == events@[i as int]@);
    }
    match &events[i] {
        XmlEvent::Start { name: tag, text: _ } => {
            if str_eq(tag.as_str(), "register") {
                let fresh_fields: Vec<Field> = Vec::new();
                proof {
                    assert(views(fresh_fields@) =~= Seq::<FieldV>::empty());
                }
                match generate_register(events, i + 1, None, None, fresh_fields) {
                    Ok((r0, j)) => {
                        let mut rs = registers;
                        rs.push(r0);
                        proof {
                            assert(views(rs@) =~= views(registers@).push(r0@));
                        }
                        generate_registers(events, j, rs)
                    },
                    Err(e) => Err(e),
                }
            } else {
                Err(ParseError::UnexpectedTag)
            }
        },
        XmlEvent::End { name: tag } => {
            if str_eq(tag.as_str(), "registers") {
                Ok((registers, i + 1))
            } else {
                Err(ParseError::UnexpectedTag)
            }
        },
        XmlEvent::Text { .. } => generate_registers(events, i + 1, registers),
        XmlEvent::Other => Err(ParseError::UnexpectedTag),
    }
}

/// Parse one `<peripheral>` node from index `i`.
pub fn generate_peripheral(
    events: &Vec<XmlEvent>,
    i: usize,
    name: Option<String>,
    base: Option<usize>,
    size: Option<usize>,
    interrupts: Vec<Interrupt>,
    registers: Vec<Register>,
) -> (r: Result<(Peripheral, usize), ParseError>)
    ensures
        match r {
            Ok(p) => i < p.1 <= events@.len() && spec_parse_peripheral(
                views(events@),
                i as int,
                opt_str_v(name),
                base,
                size,
                views(interrupts@),
                views(registers@),
            ) == Ok::<(PeripheralV, int), ParseError>((p.0@, p.1 as int)),
            Err(e) => spec_parse_peripheral(
                views(events@),
                i as int,
                opt_str_v(name),
                base,
                size,
                views(interrupts@),
                views(registers@),
            ) == Err::<(PeripheralV, int), ParseError>(e),
        },
    decreases events@.len() - i,
{
    proof {
        assert(views(events@).len() == events@.len());
    }
    if i >= events.len() {
        return Err(ParseError::UnexpectedTag);
    }
    proof {
        assert(views(events@)[i as int] == events@[i as int]@);
    }
    match &events[i] {
        XmlEvent::Start { name: _, text } => {
            if str_eq(text.as_str(), "name") {
                match extract_contents(events, i + 1) {
                    Ok(s) => generate_peripheral(
                        events,
                        i + 2,
                        Some(s),
                        base,
                        size,
                        interrupts,
                        registers,
                    ),
                    Err(e) => Err(e),
                }
            } else if str_eq(text.as_str(), "baseAddress") {
                match extract_contents(events, i + 1) {
                    Ok(s) => match parse_usize(s.as_str()) {
                        Ok(v) => generate_peripheral(
                            events,
                            i + 2,
                            name,
                            Some(v),
                            size,
                            interrupts,
                            registers,
                        ),
                        Err(e) => Err(e),
                    },
                    Err(e) => Err(e),
                }
            } else if str_eq(text.as_str(), "size") {
                match extract_contents(events, i + 1) {
                    Ok(s) => match parse_usize(s.as_str()) {
                        Ok(v) => generate_peripheral(
                            events,
                            i + 2,
                            name,
                            base,
                            Some(v),
                            interrupts,
                            registers,
                        ),
                        Err(e) => Err(e),
                    },
                    Err(e) => Err(e),
                }
            } else if str_eq(text.as_str(), "registers") {
                match generate_registers(events, i + 1, registers) {
                    Ok((rs, j)) => generate_peripheral(events, j, name, base, size, interrupts, rs),
                    Err(e) => Err(e),
                }
            } else if str_eq(text.as_str(), "interrupt") {
                match generate_interrupts(events, i + 1, None, None) {
                    Ok((iv, j)) => {
                        let mut is = interrupts;
                        is.push(iv);
                        proof {
                            assert(views(is@) =~= views(interrupts@).push(iv@));
                        }
                        generate_peripheral(events, j, name, base, size, is, registers)
                    },
                    Err(e) => Err(e),
                }
            } else {
                generate_peripheral(events, i + 1, name, base, size, interrupts, registers)
            }
        },
        XmlEvent::End { name: tag } => {
            if str_eq(tag.as_str(), "peripheral") {
                match (name, base, size) {
                    (Some(n), Some(b), Some(s)) => Ok(
                        (
                            Peripheral {
                                name: n,
                                base: b,
                                size: s,
                                interrupt: interrupts,
                                registers,
                            },
                            i + 1,
                        ),
                    ),
                    _ => Err(ParseError::MissingValue),
                }
            } else {
                generate_peripheral(events, i + 1, name, base, size, interrupts, registers)
            }
        },
        _ => generate_peripheral(events, i + 1, name, base, size, interrupts, registers),
    }
}

/// Parse a `<peripherals>` container from index `i`, appending to `acc`.
pub fn generate_peripherals(events: &Vec<XmlEvent>, i: usize, acc: Vec<Peripheral>) -> (r: Result<
    (Vec<Peripheral>, usize),
    ParseError,
>)
    ensures
        match r {
            Ok(p) => i < p.1 <= events@.len() && spec_parse_peripherals(
                views(events@),
                i as int,
                views(acc@),
            ) == Ok::<(Seq<PeripheralV>, int), ParseError>((views(p.0@), p.1 as int)),
            Err(e) => spec_parse_peripherals(views(events@), i as int, views(acc@)) == Err::<
                (Seq<PeripheralV>, int),
                ParseError,
            >(e),
        },
    decreases events@.len() - i,
{
    proof {
        assert(views(events@).len() == events@.len());
    }
    if i >= events.len() {
        return Err(ParseError::UnexpectedTag);
    }
    proof {
        assert(views(events@)[i as int] == events@[i as int]@);
    }
    match &events[i] {
        XmlEvent::Start { name: tag, text: _ } => {
            if str_eq(tag.as_str(), "peripheral") {
                let fresh_irqs: Vec<Interrupt> = Vec::new();
                let fresh_regs: Vec<Register> = Vec::new();
                proof {
                    assert(views(fresh_irqs@) =~= Seq::<InterruptV>::empty());
                    assert(views(fresh_regs@) =~= Seq::<RegisterV>::empty());
                }
                match generate_peripheral(events, i + 1, None, None, None, fresh_irqs, fresh_regs) {
                    Ok((p0, j)) => {
                        let mut ps = acc;
                        ps.push(p0);
                        proof {
                            assert(views(ps@) =~= views(acc@).push(p0@));
                        }
                        generate_peripherals(events, j, ps)
                    },
                    Err(e) => Err(e),
                }
            } else {
                Err(ParseError::UnexpectedTag)
            }
        },
        XmlEvent::End { name: tag } => {
            if str_eq(tag.as_str(), "peripherals") {
                Ok((acc, i + 1))
            } else {
                Err(ParseError::UnexpectedTag)
            }
        },
        XmlEvent::Text { .. } => generate_peripherals(events, i + 1, acc),
        XmlEvent::Other => Err(ParseError::UnexpectedTag),
    }
}

/// Parse one `<memoryRegion>` node from index `i`.
pub fn generate_memory_region(
    events: &Vec<XmlEvent>,
    i: usize,
    name: Option<String>,
    base: Option<usize>,
    size: Option<usize>,
) -> (r: Result<(MemoryRegion, usize), ParseError>)
    ensures
        match r {
            Ok(p) => i < p.1 <= events@.len() && spec_parse_memory_region(
                views(events@),
                i as int,
                opt_str_v(name),
                base,
                size,
            ) == Ok::<(MemoryRegionV, int), ParseError>((p.0@, p.1 as int)),
            Err(e) => spec_parse_memory_region(
                views(events@),
                i as int,
                opt_str_v(name),
                base,
                size,
            ) == Err::<(MemoryRegionV, int), ParseError>(e),
        },
    decreases events@.len() - i,
{
    proof {
        assert(views(events@).len() == events@.len());
    }
    if i >= events.len() {
        return Err(ParseError::UnexpectedTag);
    }
    proof {
        assert(views(events@)[i as int] == events@[i as int]@);
    }
    match &events[i] {
        XmlEvent::Start { name: _, text } => {
            if str_eq(text.as_str(), "name") {
                match extract_contents(events, i + 1) {
                    Ok(s) => generate_memory_region(events, i + 2, Some(s), base, size),
                    Err(e) => Err(e),
                }
            } else if str_eq(text.as_str(), "baseAddress") {
                match extract_contents(events, i + 1) {
                    Ok(s) => match parse_usize(s.as_str()) {
                        Ok(v) => generate_memory_region(events, i + 2, name, Some(v), size),
                        Err(e) => Err(e),
                    },
                    Err(e) => Err(e),
                }
            } else if str_eq(text.as_str(), "size") {
                match extract_contents(events, i + 1) {
                    Ok(s) => match parse_usize(s.as_str()) {
                        Ok(v) => generate_memory_region(events, i + 2, name, base, Some(v)),
                        Err(e) => Err(e),
                    },
                    Err(e) => Err(e),
                }
            } else {
                generate_memory_region(events, i + 1, name, base, size)
            }
        },
        XmlEvent::End { name: tag } => {
            if str_eq(tag.as_str(), "memoryRegion") {
                match (name, base, size) {
                    (Some(n), Some(b), Some(s)) => Ok(
                        (MemoryRegion { name: n, base: b, size: s }, i + 1),
                    ),
                    _ => Err(ParseError::MissingValue),
                }
            } else {
                generate_memory_region(events, i + 1, name, base, size)
            }
        },
        _ => generate_memory_region(events, i + 1, name, base, size),
    }
}

/// Parse a `<memoryRegions>` container from index `i`, appending to `acc`.
pub fn parse_memory_regions(events: &Vec<XmlEvent>, i: usize, acc: Vec<MemoryRegion>) -> (r: Result<
    (Vec<MemoryRegion>, usize),
    ParseError,
>)
    ensures
        match r {
            Ok(p) => i < p.1 <= events@.len() && spec_parse_memory_regions(
                views(events@),
                i as int,
                views(acc@),
            ) == Ok::<(Seq<MemoryRegionV>, int), ParseError>((views(p.0@), p.1 as int)),
            Err(e) => spec_parse_memory_regions(views(events@), i as int, views(acc@)) == Err::<
                (Seq<MemoryRegionV>, int),
                ParseError,
            >(e),
        },
    decreases events@.len() - i,
{
    proof {
        assert(views(events@).len() == events@.len());
    }
    if i >= events.len() {
        return Err(ParseError::UnexpectedTag);
    }
    proof {
        assert(views(events@)[i as int] == events@[i as int]@);
    }
    match &events[i] {
        XmlEvent::Start { name: tag, text: _ } => {
            if str_eq(tag.as_str(), "memoryRegion") {
                match generate_memory_region(events, i + 1, None, None, None) {
                    Ok((m, j)) => {
                        let mut ms = acc;
                        ms.push(m);
                        proof {
                            assert(views(ms@) =~= views(acc@).push(m@));
                        }
                        parse_memory_regions(events, j, ms)
                    },
                    Err(e) => Err(e),
                }
            } else {
                Err(ParseError::UnexpectedTag)
            }
        },
        XmlEvent::End { name: tag } => {
            if str_eq(tag.as_str(), "memoryRegions") {
                Ok((acc, i + 1))
            } else {
                Err(ParseError::UnexpectedTag)
            }
        },
        XmlEvent::Text { .. } => parse_memory_regions(events, i + 1, acc),
        XmlEvent::Other => Err(ParseError::UnexpectedTag),
    }
}

/// Parse a `<vendorExtensions>` container from index `i`, appending memory
/// regions to `acc`.
pub fn parse_vendor_extensions(events: &Vec<XmlEvent>, i: usize, acc: Vec<MemoryRegion>) -> (r:
    Result<(Vec<MemoryRegion>, usize), ParseError>)
    ensures
        match r {
            Ok(p) => i < p.1 <= events@.len() && spec_parse_vendor_extensions(
                views(events@),
                i as int,
                views(acc@),
            ) == Ok::<(Seq<MemoryRegionV>, int), ParseError>((views(p.0@), p.1 as int)),
            Err(e) => spec_parse_vendor_extensions(views(events@), i as int, views(acc@)) == Err::<
                (Seq<MemoryRegionV>, int),
                ParseError,
            >(e),
        },
    decreases events@.len() - i,
{
    proof {
        assert(views(events@).len() == events@.len());
    }
    if i >= events.len() {
        return Err(ParseError::UnexpectedTag);
    }
    proof {
        assert(views(events@)[i as int] == events@[i as int]@);
    }
    match &events[i] {
        XmlEvent::Start { name: tag, text: _ } => {
            if str_eq(tag.as_str(), "memoryRegions") {
                match parse_memory_regions(events, i + 1, acc) {
                    Ok((ms, j)) => parse_vendor_extensions(events, j, ms),
                    Err(e) => Err(e),
                }
            } else {
                Err(ParseError::UnexpectedTag)
            }
        },
        XmlEvent::End { name: tag } => {
            if str_eq(tag.as_str(), "vendorExtensions") {
                Ok((acc, i + 1))
            } else {
                Err(ParseError::UnexpectedTag)
            }
        },
        XmlEvent::Text { .. } => parse_vendor_extensions(events, i + 1, acc),
        XmlEvent::Other => Err(ParseError::UnexpectedTag),
    }
}

/// Parse a whole event list from index `i` into a description.
pub fn parse_document(
    events: &Vec<XmlEvent>,
    i: usize,
    peripherals: Vec<Peripheral>,
    memory_regions: Vec<MemoryRegion>,
) -> (r: Result<Description, ParseError>)
    ensures
        match r {
            Ok(d) => spec_parse_document(
                views(events@),
                i as int,
                views(peripherals@),
                views(memory_regions@),
            ) == Ok::<DescriptionV, ParseError>(d@),
            Err(e) => spec_parse_document(
                views(events@),
                i as int,
                views(peripherals@),
                views(memory_regions@),
            ) == Err::<DescriptionV, ParseError>(e),
        },
    decreases events@.len() - i,
{
    proof {
        assert(views(events@).len() == events@.len());
    }
    if i >= events.len() {
        return Ok(Description { peripherals, memory_regions });
    }
    proof {
        assert(views(events@)[i as int] == events@[i as int]@);
    }
    match &events[i] {
        XmlEvent::Start { name: tag, text: _ } => {
            if str_eq(tag.as_str(), "peripherals") {
                let fresh_ps: Vec<Peripheral> = Vec::new();
                proof {
                    assert(views(fresh_ps@) =~= Seq::<PeripheralV>::empty());
                }
                match generate_peripherals(events, i + 1, fresh_ps) {
                    Ok((ps, j)) => parse_document(events, j, ps, memory_regions),
                    Err(e) => Err(e),
                }
            } else if str_eq(tag.as_str(), "vendorExtensions") {
                match parse_vendor_extensions(events, i + 1, memory_regions) {
                    Ok((ms, j)) => parse_document(events, j, peripherals, ms),
                    Err(e) => Err(e),
                }
            } else {
                parse_document(events, i + 1, peripherals, memory_regions)
            }
        },
        _ => parse_document(events, i + 1, peripherals, memory_regions),
    }
}

/// What parsing a whole document's bytes yields: the tokenization's event
/// list fed to the root routine; a tokenizer or decoding failure is the
/// conversion's failure.
pub open spec fn spec_parse_svd(src: Seq<u8>) -> Result<DescriptionV, ParseError> {
    match spec_tokenize(src) {
        Ok(evs) => spec_parse_document(evs, 0, Seq::empty(), Seq::empty()),
        Err(e) => Err(e),
    }
}

/// Parse an SVD document from its bytes into the normalized description:
/// the bytes are tokenized into XML events, and the event list is parsed by
/// the root routine. `spec_parse_svd` states the result exactly.
pub fn parse_svd(src: &[u8]) -> (r: Result<Description, ParseError>)
    ensures
        match r {
            Ok(d) => spec_parse_svd(src@) == Ok::<DescriptionV, ParseError>(d@),
            Err(e) => spec_parse_svd(src@) == Err::<DescriptionV, ParseError>(e),
        },
{
    let events = match tokenize(src) {
        Ok(evs) => evs,
        Err(e) => {
            return Err(e);
        },
    };
    let empty_ps: Vec<Peripheral> = Vec::new();
    let empty_ms: Vec<MemoryRegion> = Vec::new();
    proof {
        assert(views(empty_ps@) =~= Seq::<PeripheralV>::empty());
        assert(views(empty_ms@) =~= Seq::<MemoryRegionV>::empty());
    }
    parse_document(&events, 0, empty_ps, empty_ms)
}

/// Whether an event is a start tag whose decoded text is `addressOffset`.
pub open spec fn is_offset_tag(e: XmlEventV) -> bool {
    match e {
        XmlEventV::Start { name: _, text } => text == "addressOffset"@,
        _ => false,
    }
}

/// Missing-required-value detection: a register element in whose remaining
/// events no `addressOffset` start tag occurs never parses successfully
/// while no offset has been seen — the close fails with a missing value
/// rather than silently defaulting the offset to zero.
pub proof fn lemma_register_missing_offset(
    evs: Seq<XmlEventV>,
    i: int,
    name: Option<Seq<char>>,
    fields: Seq<FieldV>,
)
    requires
        forall|k: int| i <= k < evs.len() ==> !is_offset_tag(#[trigger] evs[k]),
    ensures
        !(spec_parse_register(evs, i, name, None, fields) is Ok),
    decreases evs.len() - i,
{
    if i < 0 || i >= evs.len() {
    } else {
        assert(!is_offset_tag(evs[i]));
        match evs[i] {
            XmlEventV::Start { name: _, text: t } => {
                if t == "name"@ {
                    match spec_extract(evs, i + 1) {
                        Ok(s) => {
                            lemma_register_missing_offset(evs, i + 2, Some(s), fields);
                        },
                        Err(_) => {},
                    }
                } else if t == "addressOffset"@ {
                    assert(false);
                } else if t == "fields"@ {
                    match spec_parse_fields(evs, i + 1, fields) {
                        Ok((fs, j)) => {
                            if i + 1 < j && j <= evs.len() {
                                lemma_register_missing_offset(evs, j, name, fs);
                            }
                        },
                        Err(_) => {},
                    }
                } else {
                    lemma_register_missing_offset(evs, i + 1, name, fields);
                }
            },
            XmlEventV::End { name: n } => {
                if n == "register"@ {
                } else {
                    lemma_register_missing_offset(evs, i + 1, name, fields);
                }
            },
            _ => {
                lemma_register_missing_offset(evs, i + 1, name, fields);
            },
        }
    }
}

} // verus!
